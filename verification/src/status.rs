//! What `multiglass status` prints.

use vstd::prelude::*;
use crate::relay::StatusEntry;
use crate::text::{extend_padded, extend_str, pad_right, string_of};

verus! {

/// `*` for the forwarded session, a blank for another attached one, `?` for
/// one registered without a connected pusher.
pub open spec fn marker(e: StatusEntry) -> Seq<char> {
    if e.active {
        "*"@
    } else if e.attached {
        " "@
    } else {
        "?"@
    }
}

pub open spec fn or_dash(o: Option<String>) -> Seq<char> {
    match o {
        Some(s) => s@,
        None => "-"@,
    }
}

/// One session's line: marker, slug padded to 20, command padded to 15, cwd.
pub open spec fn entry_line(e: StatusEntry) -> Seq<char> {
    marker(e) + " "@ + pad_right(e.slug@, 20) + " "@ + pad_right(or_dash(e.command), 15) + " "@
        + or_dash(e.cwd)
}

/// The report's head: where we stream to, the relay, and a blank line.
pub open spec fn header(upstream_url: Seq<char>, base: Seq<char>) -> Seq<Seq<char>> {
    seq!["upstream: "@ + upstream_url, "relay:    "@ + base, Seq::<char>::empty()]
}

/// The report's body: one line per session, or a note that none is attached.
pub open spec fn body(entries: Seq<StatusEntry>) -> Seq<Seq<char>> {
    if entries.len() == 0 {
        seq!["no sessions attached"@]
    } else {
        entries.map_values(|e: StatusEntry| entry_line(e))
    }
}

/// The line for one session.
pub fn status_line(e: &StatusEntry) -> (s: String)
    ensures
        s@ == entry_line(*e),
{
    let mut out: Vec<char> = Vec::new();
    if e.active {
        extend_str(&mut out, "*");
    } else if e.attached {
        extend_str(&mut out, " ");
    } else {
        extend_str(&mut out, "?");
    }
    extend_str(&mut out, " ");
    extend_padded(&mut out, e.slug.as_str(), 20);
    extend_str(&mut out, " ");
    match &e.command {
        Some(c) => extend_padded(&mut out, c.as_str(), 15),
        None => extend_padded(&mut out, "-", 15),
    }
    extend_str(&mut out, " ");
    match &e.cwd {
        Some(c) => extend_str(&mut out, c.as_str()),
        None => extend_str(&mut out, "-"),
    }
    string_of(&out)
}

fn prefixed(prefix: &str, rest: &str) -> (s: String)
    ensures
        s@ == prefix@ + rest@,
{
    let mut out: Vec<char> = Vec::new();
    extend_str(&mut out, prefix);
    extend_str(&mut out, rest);
    string_of(&out)
}

/// The lines `status` prints before asking the relay.
pub fn status_header(upstream_url: &str, base: &str) -> (lines: Vec<String>)
    ensures
        lines@.map_values(|l: String| l@) == header(upstream_url@, base@),
{
    let mut lines: Vec<String> = Vec::new();
    lines.push(prefixed("upstream: ", upstream_url));
    lines.push(prefixed("relay:    ", base));
    lines.push(String::new());
    assert(lines@.map_values(|l: String| l@) == header(upstream_url@, base@));
    lines
}

/// The lines `status` prints for the relay's entries.
pub fn status_body(entries: &Vec<StatusEntry>) -> (lines: Vec<String>)
    ensures
        lines@.map_values(|l: String| l@) == body(entries@),
{
    let mut lines: Vec<String> = Vec::new();
    if entries.len() == 0 {
        lines.push("no sessions attached".to_owned());
        assert(lines@.map_values(|l: String| l@) == body(entries@));
        return lines;
    }
    let ghost views = entries@.map_values(|e: StatusEntry| entry_line(e));
    let mut i: usize = 0;
    while i < entries.len()
        invariant
            i <= entries.len(),
            views == entries@.map_values(|e: StatusEntry| entry_line(e)),
            lines@.map_values(|l: String| l@) == views.take(i as int),
        decreases entries.len() - i,
    {
        let l = status_line(&entries[i]);
        lines.push(l);
        assert(views.take(i as int + 1) == views.take(i as int).push(views[i as int]));
        assert(lines@.map_values(|l: String| l@) == views.take(i as int).push(l@));
        i = i + 1;
    }
    assert(views.take(entries.len() as int) == views);
    lines
}

}
