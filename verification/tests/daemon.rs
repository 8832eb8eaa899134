use multiglass::daemon::{
    clean_startup_log, kill_args, observe_step, parse_pid, start_step, startup_error_message,
    startup_log_text, stop_step, ObserveStep, StartAction, StartEvent, StopAction, StopEvent,
    RELAY_SERVER_ARG,
};

#[test]
fn pidfile_text_is_trimmed_and_parsed() {
    assert_eq!(parse_pid("1234\n"), Some(1234));
    assert_eq!(parse_pid("  42  "), Some(42));
    assert_eq!(parse_pid(""), None);
    assert_eq!(parse_pid("12 34"), None);
    assert_eq!(parse_pid("4294967296"), None);
    assert_eq!(parse_pid(&u32::MAX.to_string()), Some(u32::MAX));
}

#[test]
fn pid_written_reads_back() {
    for pid in [0u32, 7, 31337, u32::MAX] {
        assert_eq!(parse_pid(&pid.to_string()), Some(pid));
    }
}

#[test]
fn kill_arguments() {
    assert_eq!(kill_args("-0", 99), vec!["-0".to_string(), "99".to_string()]);
    assert_eq!(kill_args("-TERM", 1), vec!["-TERM".to_string(), "1".to_string()]);
    assert_eq!(RELAY_SERVER_ARG, "__relay-server");
}

#[test]
fn startup_log_drops_controls_and_trims() {
    assert_eq!(clean_startup_log("\x1b[31merror\x1b[0m: bad key\n").as_deref(), Some("[31merror[0m: bad key"));
    assert_eq!(clean_startup_log("  \n\t "), None);
    assert_eq!(clean_startup_log("a\tb\r\nc\u{7}").as_deref(), Some("a\tb\r\nc"));
}

#[test]
fn startup_log_keeps_the_last_8192_chars() {
    let text: String = std::iter::repeat('x').take(9000).chain("end".chars()).collect();
    let out = clean_startup_log(&text).unwrap();
    assert_eq!(out.chars().count(), 8192);
    assert!(out.ends_with("xend"));
}

#[test]
fn startup_log_reads_from_offset_lossily() {
    let bytes = b"old stuff\nnew \xff line\n";
    assert_eq!(startup_log_text(bytes, 10).as_deref(), Some("new \u{FFFD} line"));
    assert_eq!(startup_log_text(bytes, 1000), None);
    assert_eq!(startup_log_text(bytes, 0).as_deref(), Some("old stuff\nnew \u{FFFD} line"));
    assert_eq!(startup_log_text("héllo\n".as_bytes(), 0).as_deref(), Some("héllo"));
}

#[test]
fn startup_error_texts() {
    assert_eq!(
        startup_error_message(Some(1), Some("boom".into()), "/l/relay.log"),
        "relay failed to start (exit code 1):\n\nboom\n\nFull log: /l/relay.log"
    );
    assert_eq!(
        startup_error_message(None, None, "/l/relay.log"),
        "relay failed to start (terminated by a signal); see /l/relay.log"
    );
    assert_eq!(
        startup_error_message(Some(-2), None, "x"),
        "relay failed to start (exit code -2); see x"
    );
}

#[test]
fn observing_startup() {
    assert!(matches!(observe_step(Some(Some(3)), false), ObserveStep::Exited(Some(3))));
    assert!(matches!(observe_step(Some(None), true), ObserveStep::Exited(None)));
    assert!(matches!(observe_step(None, true), ObserveStep::Started));
    assert!(matches!(observe_step(None, false), ObserveStep::Wait));
}

#[test]
fn stop_decisions() {
    assert!(matches!(stop_step(StopEvent::PidRead(None)),
        StopAction::Finish { ref message, remove_pidfile: false } if message == "multiglass: not running"));
    assert!(matches!(stop_step(StopEvent::PidRead(Some(5))), StopAction::CheckAlive(5)));
    assert!(matches!(stop_step(StopEvent::Liveness { pid: 5, alive: true }), StopAction::Terminate(5)));
    assert!(matches!(stop_step(StopEvent::Liveness { pid: 5, alive: false }),
        StopAction::Finish { ref message, remove_pidfile: true } if message == "multiglass: not running (stale pidfile)"));
    assert!(matches!(stop_step(StopEvent::Terminated { pid: 5, was_running: Some(true) }),
        StopAction::Finish { ref message, remove_pidfile: true } if message == "multiglass: stopped (pid 5)"));
    assert!(matches!(stop_step(StopEvent::Terminated { pid: 5, was_running: Some(false) }),
        StopAction::Finish { ref message, remove_pidfile: true } if message == "multiglass: not running (exited while stopping)"));
    assert!(matches!(stop_step(StopEvent::Terminated { pid: 5, was_running: None }), StopAction::Fail));
}

#[test]
fn start_decisions() {
    assert!(matches!(start_step(StartEvent::PidRead(None)), StartAction::CheckConfig));
    assert!(matches!(start_step(StartEvent::PidRead(Some(9))), StartAction::CheckAlive(9)));
    assert!(matches!(start_step(StartEvent::Liveness { pid: 9, alive: true }),
        StartAction::Refuse(ref m) if m == "multiglass is already running (pid 9); `multiglass stop` first"));
    assert!(matches!(start_step(StartEvent::Liveness { pid: 9, alive: false }), StartAction::CheckConfig));
    assert!(matches!(start_step(StartEvent::ConfigChecked(true)), StartAction::Spawn));
    assert!(matches!(start_step(StartEvent::ConfigChecked(false)), StartAction::Fail));
    assert!(matches!(start_step(StartEvent::Spawned(Some(11))), StartAction::WritePid(11)));
    assert!(matches!(start_step(StartEvent::Spawned(None)), StartAction::Fail));
    assert!(matches!(start_step(StartEvent::PidWritten { pid: 11, written: true }), StartAction::Observe(11)));
    assert!(matches!(start_step(StartEvent::PidWritten { pid: 11, written: false }),
        StartAction::Abort { remove_pidfile: false, context: Some(ref c) } if c == "writing pidfile"));
    assert!(matches!(start_step(StartEvent::Observed { pid: 11, survived: true, log_path: "/l".into() }),
        StartAction::Finish(ref m) if m == "multiglass: started (pid 11), logging to /l"));
    assert!(matches!(start_step(StartEvent::Observed { pid: 11, survived: false, log_path: "/l".into() }),
        StartAction::Abort { remove_pidfile: true, context: None }));
}
