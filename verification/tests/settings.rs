use multiglass::config::{default_local_port, listen_addr, Config, DEFAULT_LOCAL_PORT};
use multiglass::paths::{
    active_session_path, config_path, config_root, log_path, pid_path, sessions_path, state_dir,
};

#[test]
fn default_port_is_47890() {
    assert_eq!(default_local_port(), 47890);
    assert_eq!(DEFAULT_LOCAL_PORT, 47890);
}

#[test]
fn login_uses_default_port_unless_given() {
    let c = Config::from_login("key".into(), "https://hub/".into(), None);
    assert_eq!(c.local_port, 47890);
    assert_eq!(c.upstream_key, "key");
    assert_eq!(c.upstream_url, "https://hub/");
    let c = Config::from_login("key".into(), "https://hub/".into(), Some(5000));
    assert_eq!(c.local_port, 5000);
}

#[test]
fn local_base_names_loopback_port() {
    let c = Config { upstream_url: "u".into(), upstream_key: "k".into(), local_port: 47890 };
    assert_eq!(c.local_base(), "http://127.0.0.1:47890");
    let c = Config { upstream_url: "u".into(), upstream_key: "k".into(), local_port: 0 };
    assert_eq!(c.local_base(), "http://127.0.0.1:0");
    assert_eq!(listen_addr(65535), "127.0.0.1:65535");
}

#[test]
fn state_files_live_in_one_directory() {
    let root = config_root("/home/ana", '/');
    assert_eq!(root, "/home/ana/.config");
    let dir = state_dir(&root, '/');
    assert_eq!(dir, "/home/ana/.config/multiglass");
    assert_eq!(config_path(&dir, '/'), "/home/ana/.config/multiglass/config.json");
    assert_eq!(pid_path(&dir, '/'), "/home/ana/.config/multiglass/relay.pid");
    assert_eq!(log_path(&dir, '/'), "/home/ana/.config/multiglass/relay.log");
    assert_eq!(sessions_path(&dir, '/'), "/home/ana/.config/multiglass/local-sessions.json");
    assert_eq!(active_session_path(&dir, '/'), "/home/ana/.config/multiglass/active-session");
}

#[test]
fn joining_respects_existing_separators() {
    assert_eq!(config_root("/", '/'), "/.config");
    assert_eq!(config_root("", '/'), ".config");
    assert_eq!(state_dir("C:\\Users\\a\\AppData\\Roaming", '\\'), "C:\\Users\\a\\AppData\\Roaming\\multiglass");
    assert_eq!(state_dir("C:/x/", '\\'), "C:/x/multiglass");
}

#[test]
fn configured_without_port_relay_is_on_default_port() {
    let c = Config::from_login("k".into(), "https://upstream.hub/".into(), None);
    assert_eq!(c.local_base(), "http://127.0.0.1:47890");
    assert_eq!(listen_addr(c.local_port), "127.0.0.1:47890");
}

#[test]
fn joining_after_a_bare_drive_adds_no_separator() {
    assert_eq!(state_dir("C:", '\\'), "C:multiglass");
    assert_eq!(state_dir("C:", '/'), "C:/multiglass");
    assert_eq!(state_dir("1:", '\\'), "1:\\multiglass");
}
