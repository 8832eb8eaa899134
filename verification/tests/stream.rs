use multiglass::stream::{control_url, local_key, register_body, stream_command};

#[test]
fn local_key_is_64_hex_digits() {
    let key = local_key().unwrap();
    assert_eq!(key.len(), 64);
    assert!(key.chars().all(|c| c.is_ascii_hexdigit() && !c.is_ascii_uppercase()));
    assert_ne!(key, local_key().unwrap());
}

#[test]
fn stream_wraps_the_shell_by_default() {
    assert_eq!(stream_command(vec![], Some("/bin/zsh".into()), "/bin/sh"), vec!["/bin/zsh"]);
    assert_eq!(stream_command(vec![], None, "/bin/sh"), vec!["/bin/sh"]);
    assert_eq!(
        stream_command(vec!["pwsh.exe".into(), "-NoLogo".into()], None, "cmd.exe"),
        vec!["pwsh.exe", "-NoLogo"]
    );
}

#[test]
fn control_endpoints() {
    assert_eq!(control_url("http://127.0.0.1:47890", "switch"), "http://127.0.0.1:47890/multiglass/switch");
    assert_eq!(control_url("b", "register"), "b/multiglass/register");
}

#[test]
fn registration_body() {
    let b = register_body("id".into(), "s".into(), "/w".into(), &vec!["vim".into(), "a b".into()], true);
    assert_eq!(b.command, "vim a b");
    assert!(!b.activate);
    assert_eq!(b.id, "id");
    assert_eq!(b.slug, "s");
    assert_eq!(b.cwd, "/w");
    let b = register_body("id".into(), "s".into(), "/w".into(), &vec![], false);
    assert_eq!(b.command, "");
    assert!(b.activate);
}
