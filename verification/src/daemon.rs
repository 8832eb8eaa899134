//! The decisions of `start` and `stop` for the relay daemon, and the text
//! they read and write: the pidfile, the signal arguments, the startup log
//! and the startup error.

use vstd::prelude::*;
use crate::text::{
    chars_of, control_char, decimal, decimal_chars, extend_chars, extend_str, is_control_char,
    is_white_space, lemma_decimal_spells, lemma_parse_decimal_roundtrip, opt_chars, parse_decimal,
    parse_unsigned, signed_decimal, signed_decimal_chars, string_of, sub_chars, trim, trim_chars,
    trim_end, trim_start,
};

verus! {

/// The hidden subcommand that the daemonized child runs.
pub const RELAY_SERVER_ARG: &'static str = "__relay-server";

/// At most this many characters of the startup log are shown.
pub const MAX_STARTUP_ERROR_CHARS: usize = 8192;

/// The pid that a pidfile's text holds: the trimmed text read as a `u32`.
pub open spec fn pid_in(text: Seq<char>) -> Option<u32> {
    match parse_unsigned(trim(text), u32::MAX as nat) {
        Some(v) => Some(v as u32),
        None => None,
    }
}

/// The pid recorded in a pidfile, if its text holds one.
pub fn parse_pid(text: &str) -> (r: Option<u32>)
    ensures
        r == pid_in(text@),
{
    let c = chars_of(text);
    let t = trim_chars(&c);
    match parse_decimal(&t, 4294967295) {
        Some(v) => Some(v as u32),
        None => None,
    }
}

/// The text of a number has no white space at either end, so trimming keeps it.
proof fn lemma_trim_keeps_decimal(n: nat)
    ensures
        trim(decimal(n)) == decimal(n),
{
    lemma_decimal_spells(n);
    let d = decimal(n);
    assert(!is_white_space(d[0]));
    assert(!is_white_space(d.last()));
    assert(trim_start(d) == d);
    assert(trim_end(d) == d);
}

/// What `start` writes to the pidfile (the child's pid as text) reads back as
/// that same pid.
pub proof fn law_pidfile_roundtrip(pid: u32)
    ensures
        pid_in(decimal(pid as nat)) == Some(pid),
{
    lemma_trim_keeps_decimal(pid as nat);
    lemma_parse_decimal_roundtrip(pid as nat, u32::MAX as nat);
}

/// The arguments of `kill` that send `signal` to process `pid`.
pub fn kill_args(signal: &str, pid: u32) -> (args: Vec<String>)
    ensures
        args@.len() == 2,
        args@[0]@ == signal@,
        args@[1]@ == decimal(pid as nat),
{
    let mut args: Vec<String> = Vec::new();
    args.push(signal.to_owned());
    let digits = decimal_chars(pid as u64);
    args.push(string_of(&digits));
    args
}

/// Whether a character of the startup log is echoed: terminal control
/// characters are dropped, except newline, carriage return and tab.
pub open spec fn kept_in_log(c: char) -> bool {
    !is_control_char(c) || c == '\n' || c == '\r' || c == '\t'
}

/// What of the startup log is shown: the echoed characters, trimmed, and at
/// most the last `MAX_STARTUP_ERROR_CHARS` of them; nothing if that is empty.
pub open spec fn startup_details(text: Seq<char>) -> Option<Seq<char>> {
    let clean = trim(text.filter(|c: char| kept_in_log(c)));
    if clean.len() == 0 {
        None
    } else if clean.len() <= MAX_STARTUP_ERROR_CHARS {
        Some(clean)
    } else {
        Some(clean.skip(clean.len() - MAX_STARTUP_ERROR_CHARS))
    }
}

/// The part of the relay's log text worth echoing after a failed start.
pub fn clean_startup_log(text: &str) -> (r: Option<String>)
    ensures
        opt_chars(r) == startup_details(text@),
{
    let c = chars_of(text);
    let ghost pred = |ch: char| kept_in_log(ch);
    let mut kept: Vec<char> = Vec::new();
    let mut i: usize = 0;
    while i < c.len()
        invariant
            i <= c.len(),
            c@ == text@,
            pred == (|ch: char| kept_in_log(ch)),
            kept@ == c@.take(i as int).filter(pred),
        decreases c.len() - i,
    {
        let ch = c[i];
        proof {
            reveal(Seq::filter);
            assert(c@.take(i as int + 1).drop_last() == c@.take(i as int));
            assert(c@.take(i as int + 1).last() == ch);
        }
        if !control_char(ch) || ch == '\n' || ch == '\r' || ch == '\t' {
            kept.push(ch);
        }
        i = i + 1;
    }
    assert(c@.take(c.len() as int) == c@);
    let t = trim_chars(&kept);
    if t.len() == 0 {
        None
    } else if t.len() <= MAX_STARTUP_ERROR_CHARS {
        Some(string_of(&t))
    } else {
        let tail = sub_chars(&t, t.len() - MAX_STARTUP_ERROR_CHARS, t.len());
        assert(tail@ == t@.skip(t.len() - MAX_STARTUP_ERROR_CHARS));
        Some(string_of(&tail))
    }
}

/// Names what `String::from_utf8_lossy` gives for `bytes`.
pub uninterp spec fn utf8_lossy(bytes: Seq<u8>) -> Seq<char>;

/// Decodes bytes as UTF-8, replacing each invalid sequence with U+FFFD.
///
/// Trusted: calls `String::from_utf8_lossy`. Its result is named
/// `utf8_lossy`; for valid UTF-8 it is the decoded text, as std documents.
/// Which characters it gives for invalid input is left unsaid.
#[verifier::external_body]
fn decode_lossy(bytes: &[u8]) -> (s: String)
    ensures
        s@ == utf8_lossy(bytes@),
        vstd::utf8::valid_utf8(bytes@) ==> s@ == vstd::utf8::decode_utf8(bytes@),
{
    String::from_utf8_lossy(bytes).into_owned()
}

/// Where the part of the log written since the start attempt begins.
pub open spec fn log_start(len: nat, offset: u64) -> int {
    if (offset as nat) < len {
        offset as int
    } else {
        len as int
    }
}

/// The part worth echoing of the log bytes written from `offset` on.
pub fn startup_log_text(bytes: &[u8], offset: u64) -> (r: Option<String>)
    ensures
        opt_chars(r) == startup_details(utf8_lossy(bytes@.skip(log_start(bytes@.len(), offset)))),
        vstd::utf8::valid_utf8(bytes@.skip(log_start(bytes@.len(), offset))) ==> opt_chars(r)
            == startup_details(vstd::utf8::decode_utf8(bytes@.skip(log_start(bytes@.len(), offset)))),
{
    let len = bytes.len();
    let start: usize = if offset < len as u64 {
        offset as usize
    } else {
        len
    };
    let tail = &bytes[start..len];
    assert(tail@ == bytes@.skip(start as int));
    let text = decode_lossy(tail);
    clean_startup_log(text.as_str())
}

/// How a failed start is described: the exit code, or that a signal ended it.
pub open spec fn exit_text(code: Option<i32>) -> Seq<char> {
    match code {
        Some(c) => "exit code "@ + signed_decimal(c as int),
        None => "terminated by a signal"@,
    }
}

/// The error reported when the relay exits during startup.
pub open spec fn startup_error_text(code: Option<i32>, details: Option<Seq<char>>, log_path: Seq<char>) -> Seq<char> {
    match details {
        Some(d) => "relay failed to start ("@ + exit_text(code) + "):\n\n"@ + d + "\n\nFull log: "@
            + log_path,
        None => "relay failed to start ("@ + exit_text(code) + "); see "@ + log_path,
    }
}

/// The error for a relay that exited during startup.
pub fn startup_error_message(exit_code: Option<i32>, details: Option<String>, log_path: &str) -> (s: String)
    ensures
        s@ == startup_error_text(exit_code, opt_chars(details), log_path@),
{
    let mut out: Vec<char> = Vec::new();
    extend_str(&mut out, "relay failed to start (");
    match exit_code {
        Some(c) => {
            extend_str(&mut out, "exit code ");
            let digits = signed_decimal_chars(c);
            extend_chars(&mut out, &digits);
        },
        None => {
            extend_str(&mut out, "terminated by a signal");
        },
    }
    match details {
        Some(d) => {
            extend_str(&mut out, "):\n\n");
            extend_str(&mut out, d.as_str());
            extend_str(&mut out, "\n\nFull log: ");
            extend_str(&mut out, log_path);
        },
        None => {
            extend_str(&mut out, "); see ");
            extend_str(&mut out, log_path);
        },
    }
    string_of(&out)
}


/// One look at the relay child while it starts.
#[derive(Debug)]
pub enum ObserveStep {
    /// The child has exited (with this exit code, or by a signal): startup failed.
    Exited(Option<i32>),
    /// The observation window is over with the child still running.
    Started,
    /// Look again after a short pause.
    Wait,
}

/// Decides, from whether the child has exited and whether the observation
/// deadline has passed, how the startup observation goes on.
pub fn observe_step(exit: Option<Option<i32>>, deadline_passed: bool) -> (r: ObserveStep)
    ensures
        match exit {
            Some(code) => r == ObserveStep::Exited(code),
            None => if deadline_passed {
                r is Started
            } else {
                r is Wait
            },
        },
{
    match exit {
        Some(code) => ObserveStep::Exited(code),
        None => if deadline_passed {
            ObserveStep::Started
        } else {
            ObserveStep::Wait
        },
    }
}

/// What `stop` has learnt.
#[derive(Debug)]
pub enum StopEvent {
    /// The pidfile was read: the pid it holds, if it holds one.
    PidRead(Option<u32>),
    /// Whether process `pid` is alive.
    Liveness { pid: u32, alive: bool },
    /// Process `pid` was sent the stop request: whether it was still running
    /// then (`Some`), or the request failed (`None`).
    Terminated { pid: u32, was_running: Option<bool> },
}

/// What `stop` does next.
#[derive(Debug)]
pub enum StopAction {
    /// Ask whether this process is alive.
    CheckAlive(u32),
    /// Stop this process.
    Terminate(u32),
    /// Print the message, remove the pidfile if asked, and succeed.
    Finish { message: String, remove_pidfile: bool },
    /// Fail with the error of the stop request; the pidfile stays.
    Fail,
}

/// The message `stop` prints for a stopped relay.
pub open spec fn stopped_text(pid: u32) -> Seq<char> {
    "multiglass: stopped (pid "@ + decimal(pid as nat) + ")"@
}

/// Decides `stop`'s next step.
pub fn stop_step(event: StopEvent) -> (r: StopAction)
    ensures
        match event {
            StopEvent::PidRead(None) => r matches StopAction::Finish { message, remove_pidfile }
                && message@ == "multiglass: not running"@ && !remove_pidfile,
            StopEvent::PidRead(Some(pid)) => r == StopAction::CheckAlive(pid),
            StopEvent::Liveness { pid, alive } => if alive {
                r == StopAction::Terminate(pid)
            } else {
                r matches StopAction::Finish { message, remove_pidfile }
                    && message@ == "multiglass: not running (stale pidfile)"@ && remove_pidfile
            },
            StopEvent::Terminated { pid, was_running } => match was_running {
                Some(true) => r matches StopAction::Finish { message, remove_pidfile }
                    && message@ == stopped_text(pid) && remove_pidfile,
                Some(false) => r matches StopAction::Finish { message, remove_pidfile }
                    && message@ == "multiglass: not running (exited while stopping)"@ && remove_pidfile,
                None => r is Fail,
            },
        },
{
    match event {
        StopEvent::PidRead(None) => StopAction::Finish {
            message: "multiglass: not running".to_owned(),
            remove_pidfile: false,
        },
        StopEvent::PidRead(Some(pid)) => StopAction::CheckAlive(pid),
        StopEvent::Liveness { pid, alive } => if alive {
            StopAction::Terminate(pid)
        } else {
            StopAction::Finish {
                message: "multiglass: not running (stale pidfile)".to_owned(),
                remove_pidfile: true,
            }
        },
        StopEvent::Terminated { pid, was_running } => match was_running {
            Some(true) => {
                let mut out: Vec<char> = Vec::new();
                extend_str(&mut out, "multiglass: stopped (pid ");
                let digits = decimal_chars(pid as u64);
                extend_chars(&mut out, &digits);
                extend_str(&mut out, ")");
                StopAction::Finish { message: string_of(&out), remove_pidfile: true }
            },
            Some(false) => StopAction::Finish {
                message: "multiglass: not running (exited while stopping)".to_owned(),
                remove_pidfile: true,
            },
            None => StopAction::Fail,
        },
    }
}

/// What `start` has learnt.
#[derive(Debug)]
pub enum StartEvent {
    /// The pidfile was read: the pid it holds, if it holds one.
    PidRead(Option<u32>),
    /// Whether the recorded process `pid` is alive.
    Liveness { pid: u32, alive: bool },
    /// Whether the configuration loads.
    ConfigChecked(bool),
    /// The relay child was spawned with this pid, or spawning failed.
    Spawned(Option<u32>),
    /// Whether the child's pid was written to the pidfile.
    PidWritten { pid: u32, written: bool },
    /// Whether the child survived the startup observation; where it logs.
    Observed { pid: u32, survived: bool, log_path: String },
}

/// What `start` does next.
#[derive(Debug)]
pub enum StartAction {
    /// Ask whether this process is alive.
    CheckAlive(u32),
    /// Load the configuration, to fail in the foreground if there is none.
    CheckConfig,
    /// Spawn the relay child with its output appended to the log.
    Spawn,
    /// Record this pid in the pidfile.
    WritePid(u32),
    /// Watch the child briefly for an early exit.
    Observe(u32),
    /// Refuse to start, with this message.
    Refuse(String),
    /// Fail with the error of the last step.
    Fail,
    /// Kill and reap the child, remove the pidfile if asked, and fail with the
    /// last step's error, under `context` if one is given.
    Abort { remove_pidfile: bool, context: Option<String> },
    /// Print this message and succeed.
    Finish(String),
}

/// The message of a `start` refused because the relay runs.
pub open spec fn already_running_text(pid: u32) -> Seq<char> {
    "multiglass is already running (pid "@ + decimal(pid as nat) + "); `multiglass stop` first"@
}

/// The message of a successful `start`.
pub open spec fn started_text(pid: u32, log_path: Seq<char>) -> Seq<char> {
    "multiglass: started (pid "@ + decimal(pid as nat) + "), logging to "@ + log_path
}

/// Decides `start`'s next step.
pub fn start_step(event: StartEvent) -> (r: StartAction)
    ensures
        match event {
            StartEvent::PidRead(None) => r is CheckConfig,
            StartEvent::PidRead(Some(pid)) => r == StartAction::CheckAlive(pid),
            StartEvent::Liveness { pid, alive } => if alive {
                r matches StartAction::Refuse(m) && m@ == already_running_text(pid)
            } else {
                r is CheckConfig
            },
            StartEvent::ConfigChecked(ok) => if ok {
                r is Spawn
            } else {
                r is Fail
            },
            StartEvent::Spawned(child) => match child {
                Some(pid) => r == StartAction::WritePid(pid),
                None => r is Fail,
            },
            StartEvent::PidWritten { pid, written } => if written {
                r == StartAction::Observe(pid)
            } else {
                r matches StartAction::Abort { remove_pidfile, context }
                    && !remove_pidfile && context is Some && context->0@ == "writing pidfile"@
            },
            StartEvent::Observed { pid, survived, log_path } => if survived {
                r matches StartAction::Finish(m) && m@ == started_text(pid, log_path@)
            } else {
                r matches StartAction::Abort { remove_pidfile, context }
                    && remove_pidfile && context is None
            },
        },
{
    match event {
        StartEvent::PidRead(None) => StartAction::CheckConfig,
        StartEvent::PidRead(Some(pid)) => StartAction::CheckAlive(pid),
        StartEvent::Liveness { pid, alive } => if alive {
            let mut out: Vec<char> = Vec::new();
            extend_str(&mut out, "multiglass is already running (pid ");
            let digits = decimal_chars(pid as u64);
            extend_chars(&mut out, &digits);
            extend_str(&mut out, "); `multiglass stop` first");
            StartAction::Refuse(string_of(&out))
        } else {
            StartAction::CheckConfig
        },
        StartEvent::ConfigChecked(ok) => if ok {
            StartAction::Spawn
        } else {
            StartAction::Fail
        },
        StartEvent::Spawned(child) => match child {
            Some(pid) => StartAction::WritePid(pid),
            None => StartAction::Fail,
        },
        StartEvent::PidWritten { pid, written } => if written {
            StartAction::Observe(pid)
        } else {
            StartAction::Abort { remove_pidfile: false, context: Some("writing pidfile".to_owned()) }
        },
        StartEvent::Observed { pid, survived, log_path } => if survived {
            let mut out: Vec<char> = Vec::new();
            extend_str(&mut out, "multiglass: started (pid ");
            let digits = decimal_chars(pid as u64);
            extend_chars(&mut out, &digits);
            extend_str(&mut out, "), logging to ");
            extend_str(&mut out, log_path.as_str());
            StartAction::Finish(string_of(&out))
        } else {
            StartAction::Abort { remove_pidfile: true, context: None }
        },
    }
}

}
