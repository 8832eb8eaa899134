//! The persisted configuration: the upstream hub, this person's session key
//! and the local port of the relay.

use vstd::prelude::*;
use crate::text::{decimal, decimal_chars, extend_chars, extend_str, string_of};

verus! {

/// The relay's local port when none is configured.
pub const DEFAULT_LOCAL_PORT: u16 = 47890;

/// The local port that a configuration without one gets.
pub fn default_local_port() -> (p: u16)
    ensures
        p == DEFAULT_LOCAL_PORT,
{
    DEFAULT_LOCAL_PORT
}

/// The upstream hub URL, the session key for it, and the local relay's port
/// (127.0.0.1 only).
#[derive(Debug)]
pub struct Config {
    pub upstream_url: String,
    pub upstream_key: String,
    pub local_port: u16,
}

/// `http://127.0.0.1:<port>`.
pub open spec fn local_base_of(port: u16) -> Seq<char> {
    "http://127.0.0.1:"@ + decimal(port as nat)
}

/// `127.0.0.1:<port>`, the address the relay listens on.
pub open spec fn listen_addr_of(port: u16) -> Seq<char> {
    "127.0.0.1:"@ + decimal(port as nat)
}

impl Config {
    /// The configuration that `multiglass config <url> <key> [--port <port>]`
    /// saves: the default port unless one is given.
    pub fn from_login(key: String, upstream_url: String, local_port: Option<u16>) -> (c: Config)
        ensures
            c.upstream_url == upstream_url,
            c.upstream_key == key,
            c.local_port == (match local_port {
                Some(p) => p,
                None => DEFAULT_LOCAL_PORT,
            }),
    {
        let port = match local_port {
            Some(p) => p,
            None => DEFAULT_LOCAL_PORT,
        };
        Config { upstream_url, upstream_key: key, local_port: port }
    }

    /// The base URL of the local relay's hub and control API.
    pub fn local_base(&self) -> (s: String)
        ensures
            s@ == local_base_of(self.local_port),
    {
        let mut out: Vec<char> = Vec::new();
        extend_str(&mut out, "http://127.0.0.1:");
        let digits = decimal_chars(self.local_port as u64);
        extend_chars(&mut out, &digits);
        string_of(&out)
    }
}

/// The address that the relay binds for a configured port.
pub fn listen_addr(port: u16) -> (s: String)
    ensures
        s@ == listen_addr_of(port),
{
    let mut out: Vec<char> = Vec::new();
    extend_str(&mut out, "127.0.0.1:");
    let digits = decimal_chars(port as u64);
    extend_chars(&mut out, &digits);
    string_of(&out)
}


/// The base URL that clients call is the address the relay listens on,
/// reached over plain HTTP.
pub proof fn law_clients_reach_the_listener(port: u16)
    ensures
        local_base_of(port) == "http://"@ + listen_addr_of(port),
{
    reveal_strlit("http://127.0.0.1:");
    reveal_strlit("http://");
    reveal_strlit("127.0.0.1:");
    assert("http://127.0.0.1:"@ == "http://"@ + "127.0.0.1:"@);
}

}
