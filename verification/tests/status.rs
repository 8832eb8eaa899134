use multiglass::relay::StatusEntry;
use multiglass::status::{status_body, status_header, status_line};

fn entry(slug: &str, cwd: Option<&str>, command: Option<&str>, attached: bool, active: bool) -> StatusEntry {
    StatusEntry {
        slug: slug.into(),
        cwd: cwd.map(|s| s.into()),
        command: command.map(|s| s.into()),
        attached,
        active,
    }
}

#[test]
fn status_lines_are_padded() {
    let e = entry("work", Some("/home/a"), Some("zsh"), true, true);
    assert_eq!(status_line(&e), format!("* {:<20} {:<15} {}", "work", "zsh", "/home/a"));
    let e = entry("idle", None, None, true, false);
    assert_eq!(status_line(&e), format!("  {:<20} {:<15} {}", "idle", "-", "-"));
    let e = entry("a-very-long-slug-over-twenty", None, Some("c"), false, false);
    assert_eq!(status_line(&e), "? a-very-long-slug-over-twenty c               -");
}

#[test]
fn status_header_lines() {
    let lines = status_header("https://hub/", "http://127.0.0.1:1");
    assert_eq!(lines, vec!["upstream: https://hub/", "relay:    http://127.0.0.1:1", ""]);
}

#[test]
fn status_body_without_sessions() {
    assert_eq!(status_body(&vec![]), vec!["no sessions attached"]);
}

#[test]
fn status_body_with_sessions() {
    let lines = status_body(&vec![entry("x", None, None, false, false), entry("y", Some("/"), None, true, false)]);
    assert_eq!(lines.len(), 2);
    assert_eq!(lines[0], format!("? {:<20} {:<15} {}", "x", "-", "-"));
    assert_eq!(lines[1], format!("  {:<20} {:<15} {}", "y", "-", "/"));
}
