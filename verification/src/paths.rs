//! Where the relay keeps its state: configuration, pid, log, sessions and
//! the active session, all in one per-user directory.

use vstd::prelude::*;
use crate::text::{extend_str, string_of, chars_of};

verus! {

/// Whether `base` is a bare Windows drive such as `C:`.
pub open spec fn is_drive(base: Seq<char>) -> bool {
    &&& base.len() == 2
    &&& base[1] == ':'
    &&& ('a' <= base[0] <= 'z' || 'A' <= base[0] <= 'Z')
}

/// `base` with `name` appended as a further path component, as
/// `Path::join` appends a relative component: a separator goes between
/// them unless `base` is empty, already ends with one, or (with the Windows
/// separator `\`) is a bare drive such as `C:`.
pub open spec fn joined(base: Seq<char>, name: Seq<char>, sep: char) -> Seq<char> {
    if base.len() == 0 || base.last() == sep || base.last() == '/' || (sep == '\\' && is_drive(base)) {
        base + name
    } else {
        base + seq![sep] + name
    }
}

fn join(base: &str, name: &str, sep: char) -> (s: String)
    ensures
        s@ == joined(base@, name@, sep),
{
    let b = chars_of(base);
    let mut out: Vec<char> = Vec::new();
    extend_str(&mut out, base);
    let drive = b.len() == 2 && b[1] == ':' && (('a' <= b[0] && b[0] <= 'z') || ('A' <= b[0] && b[0] <= 'Z'));
    if b.len() > 0 && b[b.len() - 1] != sep && b[b.len() - 1] != '/' && !(sep == '\\' && drive) {
        out.push(sep);
    }
    extend_str(&mut out, name);
    string_of(&out)
}

/// The per-user configuration root under a home directory (`$HOME/.config`).
pub fn config_root(home: &str, sep: char) -> (s: String)
    ensures
        s@ == joined(home@, ".config"@, sep),
{
    join(home, ".config", sep)
}

/// The state directory under the per-user configuration root.
pub fn state_dir(root: &str, sep: char) -> (s: String)
    ensures
        s@ == joined(root@, "multiglass"@, sep),
{
    join(root, "multiglass", sep)
}

/// The configuration file in the state directory.
pub fn config_path(state_dir: &str, sep: char) -> (s: String)
    ensures
        s@ == joined(state_dir@, "config.json"@, sep),
{
    join(state_dir, "config.json", sep)
}

/// The relay's pidfile in the state directory.
pub fn pid_path(state_dir: &str, sep: char) -> (s: String)
    ensures
        s@ == joined(state_dir@, "relay.pid"@, sep),
{
    join(state_dir, "relay.pid", sep)
}

/// The relay's log in the state directory.
pub fn log_path(state_dir: &str, sep: char) -> (s: String)
    ensures
        s@ == joined(state_dir@, "relay.log"@, sep),
{
    join(state_dir, "relay.log", sep)
}

/// The persisted local session registrations in the state directory.
pub fn sessions_path(state_dir: &str, sep: char) -> (s: String)
    ensures
        s@ == joined(state_dir@, "local-sessions.json"@, sep),
{
    join(state_dir, "local-sessions.json", sep)
}

/// The persisted active session's slug in the state directory.
pub fn active_session_path(state_dir: &str, sep: char) -> (s: String)
    ensures
        s@ == joined(state_dir@, "active-session"@, sep),
{
    join(state_dir, "active-session", sep)
}

}
