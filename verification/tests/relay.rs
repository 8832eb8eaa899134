use multiglass::relay::{
    not_attached_error, persisted_slug, placeholder_grid, register_next, same_registration,
    restore_step, AddOutcome, HubSession, RegisterEvent, RegisterStep, RelayBook, RestoreEvent,
    RestoreStep, SessionMeta,
};

fn hub(id: &str, slug: &str, live: bool) -> HubSession {
    HubSession { id: id.into(), slug: slug.into(), live }
}

#[test]
fn registration_decisions() {
    assert!(matches!(register_next(RegisterEvent::Added(AddOutcome::Added)), RegisterStep::Persist));
    assert!(matches!(register_next(RegisterEvent::Added(AddOutcome::IdTaken)), RegisterStep::CheckIdentical));
    assert!(matches!(register_next(RegisterEvent::Added(AddOutcome::SlugTaken)), RegisterStep::ReplaceSlug));
    assert!(matches!(register_next(RegisterEvent::Added(AddOutcome::Refused("Full".into()))),
        RegisterStep::Refuse(ref e) if e.status == 400 && e.message == "Full"));
    assert!(matches!(register_next(RegisterEvent::Identical(true)), RegisterStep::Persist));
    assert!(matches!(register_next(RegisterEvent::Identical(false)),
        RegisterStep::Refuse(ref e) if e.status == 400 && e.message == "IdTaken"));
    assert!(matches!(register_next(RegisterEvent::ReAdded(AddOutcome::Added)), RegisterStep::Persist));
    assert!(matches!(register_next(RegisterEvent::ReAdded(AddOutcome::SlugTaken)),
        RegisterStep::Refuse(ref e) if e.status == 400 && e.message == "SlugTaken"));
    assert!(matches!(register_next(RegisterEvent::Persisted(None)), RegisterStep::Record));
    assert!(matches!(register_next(RegisterEvent::Recorded { activate: true }), RegisterStep::Activate));
    assert!(matches!(register_next(RegisterEvent::Recorded { activate: false }), RegisterStep::Done));
    assert!(matches!(register_next(RegisterEvent::Persisted(Some("disk full".into()))),
        RegisterStep::Refuse(ref e) if e.status == 500
            && e.message == "persisting local session registration: disk full"));
}

#[test]
fn exact_registration_is_found() {
    let sessions = vec![hub("a", "one", true), hub("b", "two", false)];
    assert!(same_registration(&sessions, "b", "two"));
    assert!(!same_registration(&sessions, "a", "two"));
    assert!(!same_registration(&Vec::new(), "a", "one"));
}

#[test]
fn status_combines_hub_book_and_active_slug() {
    let mut book = RelayBook::new();
    book.record_meta("one".into(), SessionMeta { cwd: "/tmp".into(), command: "zsh".into() });
    book.record_meta("one".into(), SessionMeta { cwd: "/home".into(), command: "bash".into() });
    assert!(book.activate("one", true).is_ok());
    assert_eq!(book.active_slug().as_deref(), Some("one"));
    let entries = book.status_entries(&vec![hub("a", "one", true), hub("b", "two", false)]);
    assert_eq!(entries.len(), 2);
    assert_eq!(entries[0].slug, "one");
    assert_eq!(entries[0].cwd.as_deref(), Some("/home"));
    assert_eq!(entries[0].command.as_deref(), Some("bash"));
    assert!(entries[0].active && entries[0].attached);
    assert_eq!(entries[1].slug, "two");
    assert_eq!(entries[1].cwd, None);
    assert!(!entries[1].active && !entries[1].attached);
}

#[test]
fn activating_a_detached_session_is_not_found() {
    let mut book = RelayBook::new();
    assert!(book.activate("one", true).is_ok());
    let err = book.activate("tw\"o", false).unwrap_err();
    assert_eq!(err.status, 404);
    assert_eq!(err.message, "no attached session for \"tw\\\"o\"");
    assert_eq!(book.active_slug().as_deref(), Some("one"));
    assert_eq!(not_attached_error("\"x\"").message, "no attached session for \"x\"");
}

#[test]
fn placeholder_has_one_cell_per_char() {
    let g = placeholder_grid("héllo");
    assert_eq!(g.cols, 5);
    assert_eq!(g.cells, vec!["h", "é", "l", "l", "o"]);
    let long: String = std::iter::repeat('a').take(65537).collect();
    assert_eq!(placeholder_grid(&long).cols, 1);
}

#[test]
fn persisted_active_slug() {
    assert_eq!(persisted_slug("work\n").as_deref(), Some("work"));
    assert_eq!(persisted_slug("  \n"), None);
    assert_eq!(persisted_slug(""), None);
}

#[test]
fn restoring_the_active_session() {
    assert!(matches!(restore_step(RestoreEvent::Read(Some(" work\n".into()))), RestoreStep::Activate(ref s) if s == "work"));
    assert!(matches!(restore_step(RestoreEvent::Read(Some("\n".into()))), RestoreStep::Keep));
    assert!(matches!(restore_step(RestoreEvent::Read(None)), RestoreStep::Keep));
    assert!(matches!(restore_step(RestoreEvent::Activated(true)), RestoreStep::Keep));
    assert!(matches!(restore_step(RestoreEvent::Activated(false)), RestoreStep::Forget));
}
