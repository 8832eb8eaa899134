//! Which locally attached session "this" is: an explicit slug wins, then the
//! identity exported into the shell (`$MULTIGLASS_SLUG`), then iTerm2's
//! session id; `stream` mints a fresh one when there is none.

use vstd::prelude::*;
use crate::random::fill_random;
use crate::text::{chars_of, hex, hex_encode, opt_chars, string_of};

verus! {

/// The environment variable that `stream` exports into the wrapped shell.
pub const SLUG_ENV: &'static str = "MULTIGLASS_SLUG";

/// Why no session could be told apart.
#[derive(Debug)]
pub enum IdentityError {
    /// No slug was given and the shell carries no identity.
    Unknown,
}

impl IdentityError {
    /// The message shown for this error.
    pub fn message(&self) -> (s: String)
        ensures
            s@ == "can't tell which session this is — pass a slug explicitly, or run this from inside `multiglass stream`"@,
    {
        "can't tell which session this is — pass a slug explicitly, or run this from inside `multiglass stream`".to_owned()
    }
}

/// What follows the last `:` of `s` (all of `s` if it has none).
pub open spec fn after_last_colon(s: Seq<char>) -> Seq<char>
    decreases s.len(),
{
    if s.len() == 0 {
        s
    } else if s.last() == ':' {
        Seq::empty()
    } else {
        after_last_colon(s.drop_last()).push(s.last())
    }
}

/// The slug of an iTerm2 session id (`w0t1p0:GUID` gives the GUID).
pub fn iterm_slug(raw: &str) -> (s: String)
    ensures
        s@ == after_last_colon(raw@),
{
    let c = chars_of(raw);
    let mut i: usize = c.len();
    assert(c@.take(i as int) == c@);
    assert(c@.subrange(i as int, c.len() as int) == Seq::<char>::empty());
    assert(after_last_colon(c@) + Seq::<char>::empty() == after_last_colon(c@));
    while i > 0 && c[i - 1] != ':'
        invariant
            i <= c.len(),
            c@ == raw@,
            after_last_colon(raw@) == after_last_colon(c@.take(i as int)) + c@.subrange(i as int, c.len() as int),
        decreases i,
    {
        proof {
            let t = c@.take(i as int);
            assert(t.drop_last() == c@.take(i - 1));
            assert(c@.subrange(i - 1, c.len() as int) == seq![c@[i - 1]] + c@.subrange(i as int, c.len() as int));
        }
        i = i - 1;
    }
    proof {
        if i == 0 {
            assert(c@.take(0) == Seq::<char>::empty());
        } else {
            assert(c@.take(i as int).last() == ':');
        }
        assert(c@.take(c.len() as int) == c@);
    }
    let mut out: Vec<char> = Vec::new();
    let mut k: usize = i;
    while k < c.len()
        invariant
            i <= k <= c.len(),
            out@ == c@.subrange(i as int, k as int),
        decreases c.len() - k,
    {
        out.push(c[k]);
        k = k + 1;
    }
    string_of(&out)
}

/// The identity of the shell this runs in, from `$MULTIGLASS_SLUG` or, failing
/// that, from `$ITERM_SESSION_ID`.
pub open spec fn ambient_of(slug_var: Option<Seq<char>>, iterm_var: Option<Seq<char>>) -> Option<Seq<char>> {
    match slug_var {
        Some(s) => Some(s),
        None => match iterm_var {
            Some(raw) => Some(after_last_colon(raw)),
            None => None,
        },
    }
}

/// What follows the last `:` of `s` is the end of `s`, holds no `:`, and is
/// either all of `s` or has a `:` just before it.
proof fn lemma_after_last_colon(s: Seq<char>)
    ensures
        after_last_colon(s).len() <= s.len(),
        after_last_colon(s) == s.skip(s.len() - after_last_colon(s).len()),
        forall|k: int| 0 <= k < after_last_colon(s).len() ==> #[trigger] after_last_colon(s)[k] != ':',
        after_last_colon(s).len() == s.len() || s[s.len() - after_last_colon(s).len() - 1] == ':',
    decreases s.len(),
{
    if s.len() == 0 {
        assert(s.skip(0) == s);
    } else if s.last() == ':' {
        assert(s.skip(s.len() as int) == Seq::<char>::empty());
    } else {
        let d = s.drop_last();
        lemma_after_last_colon(d);
        let y = after_last_colon(d);
        let x = after_last_colon(s);
        assert(x == y.push(s.last()));
        assert(s.skip(s.len() - x.len()) == d.skip(d.len() - y.len()).push(s.last()));
        assert forall|k: int| 0 <= k < x.len() implies #[trigger] x[k] != ':' by {
            if k < y.len() {
                assert(x[k] == y[k]);
            }
        }
        if y.len() < d.len() {
            assert(s[s.len() - x.len() - 1] == d[d.len() - y.len() - 1]);
        }
    }
}

/// `$MULTIGLASS_SLUG`, when set, is the shell's identity whatever
/// `$ITERM_SESSION_ID` holds.
pub proof fn law_exported_slug_first(slug: Seq<char>, iterm: Option<Seq<char>>)
    ensures
        ambient_of(Some(slug), iterm) == Some(slug),
{
}

/// With `$MULTIGLASS_SLUG` unset, the identity comes from the iTerm2 session
/// id: the part after its last `:` (all of it when it has none); with neither
/// variable set there is none.
pub proof fn law_iterm_identity(raw: Seq<char>)
    ensures
        ambient_of(None, None) is None,
        ambient_of(None, Some(raw)) matches Some(x) && {
            &&& x.len() <= raw.len()
            &&& x == raw.skip(raw.len() - x.len())
            &&& forall|k: int| 0 <= k < x.len() ==> #[trigger] x[k] != ':'
            &&& (x.len() == raw.len() || raw[raw.len() - x.len() - 1] == ':')
        },
{
    lemma_after_last_colon(raw);
}

/// The ambient identity, given the two environment variables' values.
pub fn ambient_slug(slug_var: Option<String>, iterm_var: Option<String>) -> (r: Option<String>)
    ensures
        opt_chars(r) == ambient_of(opt_chars(slug_var), opt_chars(iterm_var)),
{
    match slug_var {
        Some(s) => Some(s),
        None => match iterm_var {
            Some(raw) => Some(iterm_slug(raw.as_str())),
            None => None,
        },
    }
}

/// The slug that an explicit argument and the ambient identity select: the
/// explicit one wins.
pub open spec fn chosen_slug(explicit: Option<Seq<char>>, ambient: Option<Seq<char>>) -> Option<Seq<char>> {
    match explicit {
        Some(s) => Some(s),
        None => ambient,
    }
}

/// The identity `stream` registers under: the explicit slug, else the
/// ambient one; `None` means a fresh one is to be minted.
pub fn attach_slug(explicit: Option<String>, ambient: Option<String>) -> (r: Option<String>)
    ensures
        r == (match explicit {
            Some(s) => Some(s),
            None => ambient,
        }),
        opt_chars(r) == chosen_slug(opt_chars(explicit), opt_chars(ambient)),
{
    match explicit {
        Some(s) => Some(s),
        None => ambient,
    }
}

/// The session a command like `switch` targets: the explicit slug, else the
/// ambient one, else an error.
pub fn resolve_slug(explicit: Option<String>, ambient: Option<String>) -> (r: Result<String, IdentityError>)
    ensures
        match explicit {
            Some(s) => r == Ok::<String, IdentityError>(s),
            None => match ambient {
                Some(a) => r == Ok::<String, IdentityError>(a),
                None => r is Err,
            },
        },
        match r {
            Ok(s) => chosen_slug(opt_chars(explicit), opt_chars(ambient)) == Some(s@),
            Err(_) => chosen_slug(opt_chars(explicit), opt_chars(ambient)) is None,
        },
{
    match explicit {
        Some(s) => Ok(s),
        None => match ambient {
            Some(a) => Ok(a),
            None => Err(IdentityError::Unknown),
        },
    }
}

/// The slug minted from random bytes: the bytes in lower-case hexadecimal.
pub fn slug_from_bytes(bytes: &[u8]) -> (s: String)
    ensures
        s@ == hex(bytes@),
{
    hex_encode(bytes)
}

/// A freshly minted slug: 8 random bytes in lower-case hexadecimal, or the
/// error of the random source.
pub fn random_slug() -> (r: Result<String, String>)
    ensures
        r matches Ok(s) ==> exists|bytes: Seq<u8>| bytes.len() == 8 && s@ == hex(bytes),
{
    let mut buf: [u8; 8] = [0u8; 8];
    match fill_random(&mut buf) {
        Ok(()) => {
            assert(buf@.len() == 8);
            Ok(slug_from_bytes(&buf))
        },
        Err(detail) => Err(detail),
    }
}

/// An explicit slug always wins, and a slug is chosen exactly when one of the
/// two sources has one: `switch` fails, and `stream` mints a fresh slug, in the
/// same situation.
pub proof fn law_explicit_slug_wins(explicit: Option<Seq<char>>, ambient: Option<Seq<char>>)
    ensures
        explicit is Some ==> chosen_slug(explicit, ambient) == explicit,
        chosen_slug(explicit, ambient) is None <==> (explicit is None && ambient is None),
{
}

}
