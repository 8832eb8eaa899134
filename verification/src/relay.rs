//! The relay daemon's own bookkeeping and decisions: which local session is
//! forwarded upstream, what each `stream` reported about itself, how a
//! registration is answered, and what `status` shows.

use vstd::prelude::*;
use vstd::hash_map::StringHashMap;
use crate::text::{chars_eq, chars_of, opt_chars, extend_str, push_char, string_of, trim, trim_chars, trim_end, trim_start, is_white_space};

verus! {

/// HTTP status of a request that the relay refuses.
pub const BAD_REQUEST: u16 = 400;

/// HTTP status when the named session is not attached.
pub const NOT_FOUND: u16 = 404;

/// HTTP status when the relay itself fails.
pub const INTERNAL_SERVER_ERROR: u16 = 500;

/// A refused control-API request: its HTTP status and message.
#[derive(Debug)]
pub struct ApiError {
    pub status: u16,
    pub message: String,
}

/// What `stream` reported about itself when it registered; shown by `status`.
#[derive(Debug)]
pub struct SessionMeta {
    pub cwd: String,
    pub command: String,
}

/// A session as the local hub lists it.
#[derive(Debug)]
pub struct HubSession {
    pub id: String,
    pub slug: String,
    /// A pusher is connected for it.
    pub live: bool,
}

/// One line of `status`.
#[derive(Debug)]
pub struct StatusEntry {
    pub slug: String,
    pub cwd: Option<String>,
    pub command: Option<String>,
    /// A pusher is currently connected for this slug.
    pub attached: bool,
    /// This is the slug currently forwarded to the real hub.
    pub active: bool,
}

/// The body of a `/multiglass/register` request.
#[derive(Debug)]
pub struct RegisterBody {
    pub id: String,
    pub slug: String,
    pub cwd: String,
    pub command: String,
    pub activate: bool,
}

/// The relay's own state beside the hub: the forwarded slug and each slug's
/// reported metadata.
pub struct RelayBook {
    active_slug: Option<String>,
    meta: StringHashMap<SessionMeta>,
}

/// The mathematical form of a [`RelayBook`].
pub struct BookView {
    pub active: Option<Seq<char>>,
    pub meta: Map<Seq<char>, SessionMeta>,
}

impl View for RelayBook {
    type V = BookView;

    closed spec fn view(&self) -> BookView {
        BookView { active: opt_chars(self.active_slug), meta: self.meta@ }
    }
}

/// Names what `format!("{:?}", s)` gives for a string slice.
pub uninterp spec fn str_debug(s: Seq<char>) -> Seq<char>;

/// The quoted, escaped form of `s` that `Debug` writes.
///
/// Trusted: formats `s` with `{:?}`; its result is named `str_debug`, and
/// nothing more is said of it.
#[verifier::external_body]
fn debug_quoted(s: &str) -> (r: String)
    ensures
        r@ == str_debug(s@),
{
    format!("{:?}", s)
}

/// The message for a switch to a session that is not attached.
pub open spec fn not_attached_text(quoted: Seq<char>) -> Seq<char> {
    "no attached session for "@ + quoted
}

/// The answer to a switch to a session that is not attached, given the
/// session's slug as `Debug` quotes it.
pub fn not_attached_error(quoted_slug: &str) -> (e: ApiError)
    ensures
        e.status == NOT_FOUND,
        e.message@ == not_attached_text(quoted_slug@),
{
    let mut out: Vec<char> = Vec::new();
    extend_str(&mut out, "no attached session for ");
    extend_str(&mut out, quoted_slug);
    ApiError { status: NOT_FOUND, message: string_of(&out) }
}

/// What `status` shows of one hub session, given the book.
pub open spec fn entry_of(book: BookView, s: HubSession, e: StatusEntry) -> bool {
    &&& e.slug@ == s.slug@
    &&& e.attached == s.live
    &&& e.active == (book.active == Some(s.slug@))
    &&& opt_chars(e.cwd) == (if book.meta.contains_key(s.slug@) {
        Some(book.meta[s.slug@].cwd@)
    } else {
        None
    })
    &&& opt_chars(e.command) == (if book.meta.contains_key(s.slug@) {
        Some(book.meta[s.slug@].command@)
    } else {
        None
    })
}

impl RelayBook {
    /// No session forwarded, nothing reported.
    pub fn new() -> (b: RelayBook)
        ensures
            b@.active is None,
            b@.meta == Map::<Seq<char>, SessionMeta>::empty(),
    {
        RelayBook { active_slug: None, meta: StringHashMap::new() }
    }

    /// The slug currently forwarded upstream.
    pub fn active_slug(&self) -> (r: Option<String>)
        ensures
            opt_chars(r) == self@.active,
    {
        match &self.active_slug {
            Some(s) => Some(s.clone()),
            None => None,
        }
    }

    /// Records what `stream` reported for `slug`, replacing what it reported
    /// before.
    pub fn record_meta(&mut self, slug: String, meta: SessionMeta)
        ensures
            final(self)@.meta == old(self)@.meta.insert(slug@, meta),
            final(self)@.active == old(self)@.active,
    {
        self.meta.insert(slug, meta);
    }

    /// Makes `slug` the forwarded session if it is attached (`attached`
    /// says whether the hub has a live session for it); otherwise answers
    /// 404 and changes nothing.
    pub fn activate(&mut self, slug: &str, attached: bool) -> (r: Result<(), ApiError>)
        ensures
            attached ==> r is Ok && final(self)@.active == Some(slug@),
            !attached ==> (r matches Err(e) && e.status == NOT_FOUND
                && e.message@ == not_attached_text(str_debug(slug@))
                && final(self)@.active == old(self)@.active),
            final(self)@.meta == old(self)@.meta,
    {
        if !attached {
            let quoted = debug_quoted(slug);
            return Err(not_attached_error(quoted.as_str()));
        }
        self.active_slug = Some(slug.to_owned());
        Ok(())
    }

    /// What `status` shows: one entry per hub session, in the hub's order.
    pub fn status_entries(&self, sessions: &Vec<HubSession>) -> (entries: Vec<StatusEntry>)
        ensures
            entries@.len() == sessions@.len(),
            forall|i: int| 0 <= i < sessions@.len() ==> entry_of(self@, sessions@[i], #[trigger] entries@[i]),
    {
        let mut entries: Vec<StatusEntry> = Vec::new();
        let mut i: usize = 0;
        while i < sessions.len()
            invariant
                i <= sessions.len(),
                entries@.len() == i,
                forall|k: int| 0 <= k < i ==> entry_of(self@, sessions@[k], #[trigger] entries@[k]),
            decreases sessions.len() - i,
        {
            let s = &sessions[i];
            let active = match &self.active_slug {
                Some(a) => *a == s.slug,
                None => false,
            };
            let (cwd, command) = match self.meta.get(s.slug.as_str()) {
                Some(m) => (Some(m.cwd.clone()), Some(m.command.clone())),
                None => (None, None),
            };
            let e = StatusEntry { slug: s.slug.clone(), cwd, command, attached: s.live, active };
            assert(entry_of(self@, sessions@[i as int], e));
            entries.push(e);
            i = i + 1;
        }
        entries
    }
}

/// After `record_meta(slug, meta)`, `status` shows `meta` for a session with
/// that slug, whatever was recorded before.
pub proof fn law_status_shows_recorded_meta(book: BookView, slug: Seq<char>, meta: SessionMeta, s: HubSession, e: StatusEntry)
    requires
        s.slug@ == slug,
        entry_of(BookView { meta: book.meta.insert(slug, meta), ..book }, s, e),
    ensures
        opt_chars(e.cwd) == Some(meta.cwd@),
        opt_chars(e.command) == Some(meta.command@),
{
}

/// `status` marks a session attached exactly when the hub has a pusher
/// connected for it, whichever slug is forwarded: two books that differ only
/// in the forwarded slug show the same attached flag.
pub proof fn law_attached_is_live(book: BookView, other: BookView, s: HubSession, e: StatusEntry, f: StatusEntry)
    requires
        entry_of(book, s, e),
        entry_of(other, s, f),
    ensures
        e.attached == s.live,
        e.attached == f.attached,
{
}

/// Exactly one slug is forwarded: after a successful `activate(slug)`, a
/// `status` entry is marked active if and only if its slug is that slug.
pub proof fn law_only_activated_slug_is_active(book: BookView, slug: Seq<char>, s: HubSession, e: StatusEntry)
    requires
        book.active == Some(slug),
        entry_of(book, s, e),
    ensures
        e.active <==> e.slug@ == slug,
{
}


/// What the hub answered to adding a session.
#[derive(Debug)]
pub enum AddOutcome {
    /// The session was added.
    Added,
    /// The session id is registered already.
    IdTaken,
    /// The slug is registered already, under another id.
    SlugTaken,
    /// Any other refusal, with the error as `Debug` writes it.
    Refused(String),
}

/// The text of a refused addition (the hub error as `Debug` writes it).
pub open spec fn add_error_text(o: AddOutcome) -> Seq<char> {
    match o {
        AddOutcome::Added => Seq::empty(),
        AddOutcome::IdTaken => "IdTaken"@,
        AddOutcome::SlugTaken => "SlugTaken"@,
        AddOutcome::Refused(d) => d@,
    }
}

fn add_error_string(o: &AddOutcome) -> (s: String)
    ensures
        s@ == add_error_text(*o),
{
    match o {
        AddOutcome::Added => String::new(),
        AddOutcome::IdTaken => "IdTaken".to_owned(),
        AddOutcome::SlugTaken => "SlugTaken".to_owned(),
        AddOutcome::Refused(d) => d.clone(),
    }
}

/// What a registration has learnt from the hub.
#[derive(Debug)]
pub enum RegisterEvent {
    /// The answer to the first `add_session(id, slug)`.
    Added(AddOutcome),
    /// Whether the hub lists a session with exactly this id and slug.
    Identical(bool),
    /// The answer to `add_session(id, slug)` after the stale holder of the
    /// slug was removed.
    ReAdded(AddOutcome),
    /// Persisting the registrations succeeded (`None`), or failed with this
    /// error text.
    Persisted(Option<String>),
    /// The session's metadata was recorded; `activate` is what the request
    /// asked for.
    Recorded { activate: bool },
}

/// What a registration does next.
#[derive(Debug)]
pub enum RegisterStep {
    /// List the hub's sessions and look for this exact registration.
    CheckIdentical,
    /// Remove the session holding the slug, then add this one again.
    ReplaceSlug,
    /// Persist the hub's registrations.
    Persist,
    /// Record the session's metadata.
    Record,
    /// Switch to the session and persist that choice.
    Activate,
    /// Answer the request with success.
    Done,
    /// Answer the request with this error.
    Refuse(ApiError),
}

/// The error of a registration that could not be persisted.
pub open spec fn persist_error_text(detail: Seq<char>) -> Seq<char> {
    "persisting local session registration: "@ + detail
}

/// Decides a registration's next step. A retry of the exact registration is
/// accepted; a reused id claiming another slug is refused; a slug re-attached
/// under a fresh id replaces the stale registration.
pub fn register_next(event: RegisterEvent) -> (r: RegisterStep)
    ensures
        match event {
            RegisterEvent::Added(o) => match o {
                AddOutcome::Added => r is Persist,
                AddOutcome::IdTaken => r is CheckIdentical,
                AddOutcome::SlugTaken => r is ReplaceSlug,
                AddOutcome::Refused(d) => r matches RegisterStep::Refuse(e) && e.status == BAD_REQUEST
                    && e.message@ == d@,
            },
            RegisterEvent::Identical(same) => if same {
                r is Persist
            } else {
                r matches RegisterStep::Refuse(e) && e.status == BAD_REQUEST && e.message@ == "IdTaken"@
            },
            RegisterEvent::ReAdded(o) => match o {
                AddOutcome::Added => r is Persist,
                _ => r matches RegisterStep::Refuse(e) && e.status == BAD_REQUEST
                    && e.message@ == add_error_text(o),
            },
            RegisterEvent::Persisted(failure) => match failure {
                None => r is Record,
                Some(d) => r matches RegisterStep::Refuse(e) && e.status == INTERNAL_SERVER_ERROR
                    && e.message@ == persist_error_text(d@),
            },
            RegisterEvent::Recorded { activate } => if activate {
                r is Activate
            } else {
                r is Done
            },
        },
{
    match event {
        RegisterEvent::Added(o) => match o {
            AddOutcome::Added => RegisterStep::Persist,
            AddOutcome::IdTaken => RegisterStep::CheckIdentical,
            AddOutcome::SlugTaken => RegisterStep::ReplaceSlug,
            AddOutcome::Refused(d) => RegisterStep::Refuse(ApiError { status: BAD_REQUEST, message: d }),
        },
        RegisterEvent::Identical(same) => if same {
            RegisterStep::Persist
        } else {
            RegisterStep::Refuse(ApiError { status: BAD_REQUEST, message: "IdTaken".to_owned() })
        },
        RegisterEvent::ReAdded(o) => match o {
            AddOutcome::Added => RegisterStep::Persist,
            _ => {
                let message = add_error_string(&o);
                RegisterStep::Refuse(ApiError { status: BAD_REQUEST, message })
            },
        },
        RegisterEvent::Persisted(failure) => match failure {
            None => RegisterStep::Record,
            Some(d) => {
                let mut out: Vec<char> = Vec::new();
                extend_str(&mut out, "persisting local session registration: ");
                extend_str(&mut out, d.as_str());
                RegisterStep::Refuse(ApiError { status: INTERNAL_SERVER_ERROR, message: string_of(&out) })
            },
        },
        RegisterEvent::Recorded { activate } => if activate {
            RegisterStep::Activate
        } else {
            RegisterStep::Done
        },
    }
}

/// Whether some listed session has exactly this id and slug.
pub open spec fn lists_registration(sessions: Seq<HubSession>, id: Seq<char>, slug: Seq<char>) -> bool {
    exists|i: int| 0 <= i < sessions.len() && #[trigger] sessions[i].id@ == id && sessions[i].slug@ == slug
}

/// Whether the hub's sessions include exactly this registration.
pub fn same_registration(sessions: &Vec<HubSession>, id: &str, slug: &str) -> (r: bool)
    ensures
        r == lists_registration(sessions@, id@, slug@),
{
    let mut i: usize = 0;
    while i < sessions.len()
        invariant
            i <= sessions.len(),
            forall|k: int| 0 <= k < i ==> !(#[trigger] sessions@[k].id@ == id@ && sessions@[k].slug@ == slug@),
        decreases sessions.len() - i,
    {
        let sid = chars_of(sessions[i].id.as_str());
        let sslug = chars_of(sessions[i].slug.as_str());
        if chars_eq(&sid, id) && chars_eq(&sslug, slug) {
            return true;
        }
        i = i + 1;
    }
    false
}

/// A registration is listed as soon as any session, the first included,
/// carries that id and that slug.
pub proof fn law_listed_at_any_place(sessions: Seq<HubSession>, i: int, id: Seq<char>, slug: Seq<char>)
    requires
        0 <= i < sessions.len(),
        sessions[i].id@ == id,
        sessions[i].slug@ == slug,
    ensures
        lists_registration(sessions, id, slug),
{
}

/// Whether a list holds a registration is decided session by session from
/// the front: a one-session list holds exactly that session's id and slug,
/// no empty list holds any, and a longer list holds one when its first
/// session is it or the rest holds it.
pub proof fn law_listed_from_the_front(first: HubSession, rest: Seq<HubSession>, id: Seq<char>, slug: Seq<char>)
    ensures
        lists_registration(seq![first], id, slug) == (first.id@ == id && first.slug@ == slug),
        !lists_registration(Seq::<HubSession>::empty(), id, slug),
        lists_registration(seq![first] + rest, id, slug)
            == ((first.id@ == id && first.slug@ == slug) || lists_registration(rest, id, slug)),
{
    let all = seq![first] + rest;
    assert(all[0] == first);
    if lists_registration(rest, id, slug) {
        let k = choose|k: int| 0 <= k < rest.len() && #[trigger] rest[k].id@ == id && rest[k].slug@ == slug;
        assert(all[k + 1] == rest[k]);
    }
    if lists_registration(all, id, slug) && !(first.id@ == id && first.slug@ == slug) {
        let k = choose|k: int| 0 <= k < all.len() && #[trigger] all[k].id@ == id && all[k].slug@ == slug;
        assert(k != 0);
        assert(rest[k - 1] == all[k]);
    }
    if lists_registration(seq![first], id, slug) {
        assert(seq![first][0] == first);
    }
}

/// The frame shown upstream before any tab is activated: one row holding
/// the text, one character per cell.
#[derive(Debug)]
pub struct PlaceholderGrid {
    /// The row's width, as a terminal's 16-bit column count.
    pub cols: u16,
    /// The cells' texts.
    pub cells: Vec<String>,
}

/// The placeholder grid for `text`.
pub fn placeholder_grid(text: &str) -> (g: PlaceholderGrid)
    ensures
        g.cols as int == text@.len() % 65536,
        g.cells@.len() == text@.len(),
        forall|i: int| 0 <= i < text@.len() ==> (#[trigger] g.cells@[i])@ == seq![text@[i]],
{
    let c = chars_of(text);
    let mut cells: Vec<String> = Vec::new();
    let mut i: usize = 0;
    while i < c.len()
        invariant
            i <= c.len(),
            c@ == text@,
            cells@.len() == i,
            forall|k: int| 0 <= k < i ==> (#[trigger] cells@[k])@ == seq![c@[k]],
        decreases c.len() - i,
    {
        let mut cell = String::new();
        push_char(&mut cell, c[i]);
        assert(cell@ == seq![c@[i as int]]);
        cells.push(cell);
        i = i + 1;
    }
    let cols: u16 = (c.len() % 65536) as u16;
    PlaceholderGrid { cols, cells }
}

/// The slug that a persisted active-session file holds: its trimmed text,
/// unless that is empty.
pub open spec fn persisted_slug_of(contents: Seq<char>) -> Option<Seq<char>> {
    if trim(contents).len() == 0 {
        None
    } else {
        Some(trim(contents))
    }
}

/// The slug to re-activate at relay start from the persisted file's text.
pub fn persisted_slug(contents: &str) -> (r: Option<String>)
    ensures
        opt_chars(r) == persisted_slug_of(contents@),
{
    let c = chars_of(contents);
    let t = trim_chars(&c);
    if t.len() == 0 {
        None
    } else {
        Some(string_of(&t))
    }
}

/// A slug that switching persists (non-empty, no white space at either end)
/// is the one re-activated when the relay restarts.
pub proof fn law_active_session_survives_restart(slug: Seq<char>)
    requires
        slug.len() > 0,
        !is_white_space(slug[0]),
        !is_white_space(slug.last()),
    ensures
        persisted_slug_of(slug) == Some(slug),
{
    assert(trim_start(slug) == slug);
    assert(trim_end(slug) == slug);
}


/// What restoring the persisted active session at relay start has learnt.
#[derive(Debug)]
pub enum RestoreEvent {
    /// The persisted file's text, if it could be read.
    Read(Option<String>),
    /// Whether activating the persisted slug succeeded.
    Activated(bool),
}

/// What restoring the persisted active session does next.
#[derive(Debug)]
pub enum RestoreStep {
    /// Activate this slug.
    Activate(String),
    /// Remove the persisted file: its slug cannot be activated.
    Forget,
    /// Nothing more to do.
    Keep,
}

/// Decides the restoring of the persisted active session: a slug read from
/// the file is activated; one that cannot be is forgotten.
pub fn restore_step(event: RestoreEvent) -> (r: RestoreStep)
    ensures
        match event {
            RestoreEvent::Read(contents) => match contents {
                Some(c) => match persisted_slug_of(c@) {
                    Some(slug) => r matches RestoreStep::Activate(s) && s@ == slug,
                    None => r is Keep,
                },
                None => r is Keep,
            },
            RestoreEvent::Activated(ok) => if ok {
                r is Keep
            } else {
                r is Forget
            },
        },
{
    match event {
        RestoreEvent::Read(contents) => match contents {
            Some(c) => match persisted_slug(c.as_str()) {
                Some(slug) => RestoreStep::Activate(slug),
                None => RestoreStep::Keep,
            },
            None => RestoreStep::Keep,
        },
        RestoreEvent::Activated(ok) => if ok {
            RestoreStep::Keep
        } else {
            RestoreStep::Forget
        },
    }
}

}
