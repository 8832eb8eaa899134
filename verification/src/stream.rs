//! `stream`: the local key, the command to wrap, and the registration it
//! sends to the relay.

use vstd::prelude::*;
use crate::relay::RegisterBody;
use crate::text::{extend_str, hex, hex_encode, join, join_strings, string_of};
use crate::cli::strings_view;
use crate::random::fill_random;

verus! {

/// A throwaway local push key: 32 random bytes in lower-case hexadecimal.
pub fn local_key() -> (r: Result<String, String>)
    ensures
        match r {
            Ok(key) => exists|bytes: Seq<u8>| bytes.len() == 32 && key@ == hex(bytes),
            Err(message) => exists|detail: Seq<char>| message@ == "generating a local session key: "@ + detail,
        },
{
    let mut buf: [u8; 32] = [0u8; 32];
    match fill_random(&mut buf) {
        Ok(()) => {
            let key = hex_encode(&buf);
            assert(buf@.len() == 32);
            Ok(key)
        },
        Err(detail) => {
            let mut out: Vec<char> = Vec::new();
            extend_str(&mut out, "generating a local session key: ");
            extend_str(&mut out, detail.as_str());
            Err(string_of(&out))
        },
    }
}

/// The command that `stream` wraps: the one given, or else the user's shell
/// (`shell`), or else `fallback`.
pub fn stream_command(command: Vec<String>, shell: Option<String>, fallback: &str) -> (r: Vec<String>)
    ensures
        command@.len() > 0 ==> r == command,
        command@.len() == 0 ==> r@.len() == 1 && r@[0]@ == (match shell {
            Some(s) => s@,
            None => fallback@,
        }),
{
    if command.len() > 0 {
        return command;
    }
    let sh = match shell {
        Some(s) => s,
        None => fallback.to_owned(),
    };
    let mut r: Vec<String> = Vec::new();
    r.push(sh);
    r
}

/// The URL of the relay's control endpoint `name` under `base`.
pub fn control_url(base: &str, name: &str) -> (s: String)
    ensures
        s@ == base@ + "/multiglass/"@ + name@,
{
    let mut out: Vec<char> = Vec::new();
    extend_str(&mut out, base);
    extend_str(&mut out, "/multiglass/");
    extend_str(&mut out, name);
    string_of(&out)
}

/// The registration `stream` sends: the command joined with spaces, and
/// activation unless `--no-switch` was given.
pub fn register_body(id: String, slug: String, cwd: String, command: &Vec<String>, no_switch: bool) -> (b: RegisterBody)
    ensures
        b.id == id,
        b.slug == slug,
        b.cwd == cwd,
        b.command@ == join(strings_view(command@), " "@),
        b.activate == !no_switch,
{
    let joined = join_strings(command, " ");
    RegisterBody { id, slug, cwd, command: joined, activate: !no_switch }
}

/// A `stream` that wraps only the shell registers the shell itself as its
/// command text: a one-word command is sent as that word.
pub proof fn law_single_word_command(word: String)
    ensures
        join(strings_view(seq![word]), " "@) == word@,
{
    assert(strings_view(seq![word]) == seq![word@]);
}

}
