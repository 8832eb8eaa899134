//! The command-line grammar: `multiglass <subcommand> [options] [args] [-- command...]`.

use vstd::prelude::*;
use crate::text::{
    chars_eq, chars_of, decimal, decimal_chars, digits_value, extend_chars, extend_str, is_digit,
    opt_chars, string_of, sub_chars,
};

verus! {

/// What the user asked for.
#[derive(Debug)]
pub enum Command {
    /// Store the upstream hub and session key (`config <upstream> <key> [--port <port>]`).
    Config { upstream: String, key: String, port: Option<u16> },
    /// Start the local relay in the background.
    Start,
    /// Stop the local relay.
    Stop,
    /// Wrap this tab's shell and push it to the local relay
    /// (`stream [slug] [--no-switch] [-- command...]`).
    Stream { slug: Option<String>, no_switch: bool, command: Vec<String> },
    /// Tell the relay to upstream a session now (`switch [slug]`).
    Switch { slug: Option<String> },
    /// Show where we're streaming to and what's locally attached.
    Status,
    /// The hidden subcommand that the daemonized relay runs.
    RelayServer,
}

/// A parsed command line.
#[derive(Debug)]
pub struct Cli {
    pub command: Command,
}

/// The mathematical form of [`Command`].
pub enum CommandView {
    Config { upstream: Seq<char>, key: Seq<char>, port: Option<u16> },
    Start,
    Stop,
    Stream { slug: Option<Seq<char>>, no_switch: bool, command: Seq<Seq<char>> },
    Switch { slug: Option<Seq<char>> },
    Status,
    RelayServer,
}

/// Why a command line was not accepted.
#[derive(Debug)]
pub enum CliError {
    /// Help was asked for (`-h`, `--help`, or `help [subcommand]`), for this
    /// subcommand or, with `None`, for the program.
    Help(Option<Subcommand>),
    /// No subcommand was given: the program's help is shown instead.
    MissingSubcommand,
    /// The named subcommand does not exist.
    UnknownSubcommand(String),
    /// An option that the subcommand does not have (`--name` or `-c`).
    UnknownArgument(String),
    /// A positional argument beyond those the subcommand takes.
    UnexpectedArgument(String),
    /// An option given a second time.
    RepeatedArgument(String),
    /// An option that needs a value was given none.
    MissingValue(String),
    /// A value that does not parse as the option's type, and why.
    InvalidValue { value: String, reason: String },
    /// A flag was given a value with `=`.
    UnexpectedValue { value: String, option: String },
    /// The required positional arguments that are missing, in order.
    MissingArguments(Vec<String>),
}

/// The mathematical form of [`CliError`].
pub enum CliErrorView {
    Help(Option<Subcommand>),
    MissingSubcommand,
    UnknownSubcommand(Seq<char>),
    UnknownArgument(Seq<char>),
    UnexpectedArgument(Seq<char>),
    RepeatedArgument(Seq<char>),
    MissingValue(Seq<char>),
    InvalidValue { value: Seq<char>, reason: Seq<char> },
    UnexpectedValue { value: Seq<char>, option: Seq<char> },
    MissingArguments(Seq<Seq<char>>),
}

pub open spec fn strings_view(v: Seq<String>) -> Seq<Seq<char>> {
    v.map_values(|s: String| s@)
}

impl View for Command {
    type V = CommandView;

    open spec fn view(&self) -> CommandView {
        match self {
            Command::Config { upstream, key, port } => CommandView::Config {
                upstream: upstream@,
                key: key@,
                port: *port,
            },
            Command::Start => CommandView::Start,
            Command::Stop => CommandView::Stop,
            Command::Stream { slug, no_switch, command } => CommandView::Stream {
                slug: opt_chars(*slug),
                no_switch: *no_switch,
                command: strings_view(command@),
            },
            Command::Switch { slug } => CommandView::Switch { slug: opt_chars(*slug) },
            Command::Status => CommandView::Status,
            Command::RelayServer => CommandView::RelayServer,
        }
    }
}

impl View for CliError {
    type V = CliErrorView;

    open spec fn view(&self) -> CliErrorView {
        match self {
            CliError::Help(s) => CliErrorView::Help(*s),
            CliError::MissingSubcommand => CliErrorView::MissingSubcommand,
            CliError::UnknownSubcommand(s) => CliErrorView::UnknownSubcommand(s@),
            CliError::UnknownArgument(s) => CliErrorView::UnknownArgument(s@),
            CliError::UnexpectedArgument(s) => CliErrorView::UnexpectedArgument(s@),
            CliError::RepeatedArgument(s) => CliErrorView::RepeatedArgument(s@),
            CliError::MissingValue(s) => CliErrorView::MissingValue(s@),
            CliError::InvalidValue { value, reason } => CliErrorView::InvalidValue {
                value: value@,
                reason: reason@,
            },
            CliError::UnexpectedValue { value, option } => CliErrorView::UnexpectedValue {
                value: value@,
                option: option@,
            },
            CliError::MissingArguments(v) => CliErrorView::MissingArguments(strings_view(v@)),
        }
    }
}

/// The subcommands, without their arguments.
#[derive(Clone, Copy, Debug, PartialEq, Eq, Structural)]
pub enum Subcommand {
    Config,
    Start,
    Stop,
    Stream,
    Switch,
    Status,
    RelayServer,
}

/// The subcommand that `name` selects.
pub open spec fn subcommand_named(name: Seq<char>) -> Option<Subcommand> {
    if name == "config"@ {
        Some(Subcommand::Config)
    } else if name == "start"@ {
        Some(Subcommand::Start)
    } else if name == "stop"@ {
        Some(Subcommand::Stop)
    } else if name == "stream"@ {
        Some(Subcommand::Stream)
    } else if name == "switch"@ {
        Some(Subcommand::Switch)
    } else if name == "status"@ {
        Some(Subcommand::Status)
    } else if name == "__relay-server"@ {
        Some(Subcommand::RelayServer)
    } else {
        None
    }
}

/// How many positional arguments a subcommand takes.
pub open spec fn positional_limit(sub: Subcommand) -> nat {
    match sub {
        Subcommand::Config => 2,
        Subcommand::Stream => 1,
        Subcommand::Switch => 1,
        _ => 0,
    }
}

/// Whether what follows `--` is the subcommand's trailing command.
pub open spec fn takes_trailing(sub: Subcommand) -> bool {
    sub == Subcommand::Stream
}

/// How the `--port` option is named in messages.
pub open spec fn port_option() -> Seq<char> {
    "--port <PORT>"@
}

/// How many decimal digits `s` begins with.
pub open spec fn digit_run(s: Seq<char>) -> nat
    decreases s.len(),
{
    if s.len() == 0 || !is_digit(s[0]) {
        0
    } else {
        1 + digit_run(s.drop_first())
    }
}

/// The largest magnitude of an `i64` of the given sign.
pub open spec fn i64_limit(negative: bool) -> nat {
    if negative {
        9223372036854775808
    } else {
        9223372036854775807
    }
}

/// What the `--port` value parser gives for `v`: the text read as an `i64`
/// (`from_str`: optional sign, digits), then held to `0..=65535`; or the
/// reason it was refused.
pub open spec fn port_parse(v: Seq<char>) -> Result<u16, Seq<char>> {
    if v.len() == 0 {
        Err("cannot parse integer from empty string"@)
    } else {
        let negative = v[0] == '-';
        let digits = if v[0] == '+' || v[0] == '-' { v.drop_first() } else { v };
        let k = digit_run(digits);
        let magnitude = digits_value(digits.take(k as int));
        if digits.len() == 0 {
            Err("invalid digit found in string"@)
        } else if magnitude > i64_limit(negative) {
            if negative {
                Err("number too small to fit in target type"@)
            } else {
                Err("number too large to fit in target type"@)
            }
        } else if k < digits.len() {
            Err("invalid digit found in string"@)
        } else if magnitude == 0 || (!negative && magnitude <= 65535) {
            Ok(magnitude as u16)
        } else {
            Err((if negative { seq!['-'] + decimal(magnitude) } else { decimal(magnitude) }) + " is not in 0..=65535"@)
        }
    }
}

/// What has been read of a subcommand's arguments so far. `pending` is a
/// `--port` whose value is not yet taken: `Some(None)` when none followed
/// it, `Some(Some(v))` when `v` did.
pub struct ScanView {
    pub positionals: Seq<Seq<char>>,
    pub trailing: Seq<Seq<char>>,
    pub dashdash: bool,
    pub port: Option<u16>,
    pub pending: Option<Option<Seq<char>>>,
    pub no_switch: bool,
}

pub open spec fn empty_scan() -> ScanView {
    ScanView {
        positionals: Seq::empty(),
        trailing: Seq::empty(),
        dashdash: false,
        port: None,
        pending: None,
        no_switch: false,
    }
}

/// Takes the pending `--port` value, if there is one.
pub open spec fn resolve(st: ScanView) -> Result<ScanView, CliErrorView> {
    match st.pending {
        None => Ok(st),
        Some(None) => Err(CliErrorView::MissingValue(port_option())),
        Some(Some(v)) => if st.port is Some {
            Err(CliErrorView::RepeatedArgument(port_option()))
        } else {
            match port_parse(v) {
                Ok(p) => Ok(ScanView { port: Some(p), pending: None, ..st }),
                Err(reason) => Err(CliErrorView::InvalidValue { value: v, reason }),
            }
        },
    }
}

/// Where the first `=` of `s` stands (`s.len()` if there is none).
pub open spec fn eq_pos(s: Seq<char>) -> nat
    decreases s.len(),
{
    if s.len() == 0 || s[0] == '=' {
        0
    } else {
        1 + eq_pos(s.drop_first())
    }
}

/// The name of a long option `--name` or `--name=value`.
pub open spec fn option_name(t: Seq<char>) -> Seq<char> {
    let body = t.skip(2);
    body.take(eq_pos(body) as int)
}

/// The value of a long option written `--name=value`.
pub open spec fn option_value(t: Seq<char>) -> Option<Seq<char>> {
    let body = t.skip(2);
    if eq_pos(body) < body.len() {
        Some(body.skip(eq_pos(body) as int + 1))
    } else {
        None
    }
}

/// Whether `t` has the form of a long option (`--...`).
pub open spec fn is_long_option(t: Seq<char>) -> bool {
    t.len() >= 2 && t[0] == '-' && t[1] == '-'
}

/// Whether `t` has the form of an option (`-x...`); a lone `-` is a value.
pub open spec fn is_option(t: Seq<char>) -> bool {
    t.len() >= 2 && t[0] == '-'
}

/// Reads the token `t` (followed by `next`, if any): the new state and how
/// many tokens were used, or why the command line is refused.
pub open spec fn step(sub: Subcommand, t: Seq<char>, next: Option<Seq<char>>, st: ScanView) -> Result<(ScanView, nat), CliErrorView> {
    if st.dashdash {
        if takes_trailing(sub) {
            Ok((ScanView { trailing: st.trailing.push(t), ..st }, 1))
        } else if st.positionals.len() < positional_limit(sub) {
            Ok((ScanView { positionals: st.positionals.push(t), ..st }, 1))
        } else {
            Err(CliErrorView::UnexpectedArgument(t))
        }
    } else if t == "--"@ {
        match resolve(st) {
            Ok(s) => Ok((ScanView { dashdash: true, ..s }, 1)),
            Err(e) => Err(e),
        }
    } else if is_long_option(t) {
        let name = option_name(t);
        let value = option_value(t);
        if name == "help"@ {
            if value is Some {
                Err(CliErrorView::UnexpectedValue { value: value->0, option: "--help"@ })
            } else {
                match resolve(st) {
                    Ok(_) => Err(CliErrorView::Help(Some(sub))),
                    Err(e) => Err(e),
                }
            }
        } else if sub == Subcommand::Config && name == "port"@ {
            match resolve(st) {
                Err(e) => Err(e),
                Ok(s) => if value is Some {
                    match resolve(ScanView { pending: Some(value), ..s }) {
                        Ok(s2) => Ok((s2, 1)),
                        Err(e) => Err(e),
                    }
                } else if next is Some && !is_option(next->0) {
                    Ok((ScanView { pending: Some(next), ..s }, 2))
                } else {
                    Ok((ScanView { pending: Some(None), ..s }, 1))
                },
            }
        } else if sub == Subcommand::Stream && name == "no-switch"@ {
            if value is Some {
                Err(CliErrorView::UnexpectedValue { value: value->0, option: "--no-switch"@ })
            } else if st.no_switch {
                Err(CliErrorView::RepeatedArgument("--no-switch"@))
            } else {
                Ok((ScanView { no_switch: true, ..st }, 1))
            }
        } else {
            Err(CliErrorView::UnknownArgument("--"@ + name))
        }
    } else if is_option(t) {
        if t[1] == 'h' {
            match resolve(st) {
                Ok(_) => Err(CliErrorView::Help(Some(sub))),
                Err(e) => Err(e),
            }
        } else {
            Err(CliErrorView::UnknownArgument(seq!['-', t[1]]))
        }
    } else if st.positionals.len() < positional_limit(sub) {
        match resolve(st) {
            Ok(s) => Ok((ScanView { positionals: s.positionals.push(t), ..s }, 1)),
            Err(e) => Err(e),
        }
    } else {
        Err(CliErrorView::UnexpectedArgument(t))
    }
}

/// Reads all of a subcommand's argument tokens, from left to right.
pub open spec fn scan(sub: Subcommand, toks: Seq<Seq<char>>, st: ScanView) -> Result<ScanView, CliErrorView>
    decreases toks.len(),
{
    if toks.len() == 0 {
        Ok(st)
    } else {
        let next = if toks.len() > 1 { Some(toks[1]) } else { None };
        match step(sub, toks[0], next, st) {
            Err(e) => Err(e),
            Ok((st2, n)) => if 1 <= n <= toks.len() {
                scan(sub, toks.skip(n as int), st2)
            } else {
                Ok(st2)
            },
        }
    }
}

/// The command that a subcommand's arguments make, once all are read.
pub open spec fn finish(sub: Subcommand, st: ScanView) -> Result<CommandView, CliErrorView> {
    let p = st.positionals;
    let first = if p.len() > 0 { Some(p[0]) } else { None };
    match sub {
        Subcommand::Config => if p.len() == 0 {
            Err(CliErrorView::MissingArguments(seq!["<UPSTREAM>"@, "<KEY>"@]))
        } else if p.len() == 1 {
            Err(CliErrorView::MissingArguments(seq!["<KEY>"@]))
        } else {
            Ok(CommandView::Config { upstream: p[0], key: p[1], port: st.port })
        },
        Subcommand::Start => Ok(CommandView::Start),
        Subcommand::Stop => Ok(CommandView::Stop),
        Subcommand::Stream => Ok(
            CommandView::Stream { slug: first, no_switch: st.no_switch, command: st.trailing },
        ),
        Subcommand::Switch => Ok(CommandView::Switch { slug: first }),
        Subcommand::Status => Ok(CommandView::Status),
        Subcommand::RelayServer => Ok(CommandView::RelayServer),
    }
}

/// What `help [names...]` asks for.
pub open spec fn help_for(rest: Seq<Seq<char>>) -> CliErrorView {
    if rest.len() == 0 || rest[0] == "help"@ {
        CliErrorView::Help(None)
    } else {
        match subcommand_named(rest[0]) {
            None => CliErrorView::UnknownSubcommand(rest[0]),
            Some(sub) => if rest.len() == 1 {
                CliErrorView::Help(Some(sub))
            } else {
                CliErrorView::UnknownSubcommand(rest[1])
            },
        }
    }
}

/// What a whole command line (program name first) means.
pub open spec fn parse_args(args: Seq<Seq<char>>) -> Result<CommandView, CliErrorView> {
    if args.len() < 2 {
        Err(CliErrorView::MissingSubcommand)
    } else {
        let name = args[1];
        if name == "--"@ {
            if args.len() == 2 {
                Err(CliErrorView::MissingSubcommand)
            } else {
                Err(CliErrorView::UnexpectedArgument(args[2]))
            }
        } else if is_long_option(name) {
            let n = option_name(name);
            if n == "help"@ {
                match option_value(name) {
                    Some(v) => Err(CliErrorView::UnexpectedValue { value: v, option: "--help"@ }),
                    None => Err(CliErrorView::Help(None)),
                }
            } else {
                Err(CliErrorView::UnknownArgument("--"@ + n))
            }
        } else if is_option(name) {
            if name[1] == 'h' {
                Err(CliErrorView::Help(None))
            } else {
                Err(CliErrorView::UnknownArgument(seq!['-', name[1]]))
            }
        } else if name == "help"@ {
            Err(help_for(args.skip(2)))
        } else {
            match subcommand_named(name) {
                None => Err(CliErrorView::UnknownSubcommand(name)),
                Some(sub) => match scan(sub, args.skip(2), empty_scan()) {
                    Err(e) => Err(e),
                    Ok(st) => match resolve(st) {
                        Err(e) => Err(e),
                        Ok(st2) => finish(sub, st2),
                    },
                },
            }
        }
    }
}

pub open spec fn args_view(args: Seq<&str>) -> Seq<Seq<char>> {
    args.map_values(|a: &str| a@)
}

pub open spec fn opt_str_view(o: Option<&str>) -> Option<Seq<char>> {
    match o {
        Some(s) => Some(s@),
        None => None,
    }
}

/// The message shown for a refused command line (empty where help is shown
/// in its place).
pub open spec fn error_text(e: CliErrorView) -> Seq<char> {
    match e {
        CliErrorView::Help(_) => Seq::empty(),
        CliErrorView::MissingSubcommand => Seq::empty(),
        CliErrorView::UnknownSubcommand(s) => "unrecognized subcommand '"@ + s + "'"@,
        CliErrorView::UnknownArgument(s) => "unexpected argument '"@ + s + "' found"@,
        CliErrorView::UnexpectedArgument(s) => "unexpected argument '"@ + s + "' found"@,
        CliErrorView::RepeatedArgument(s) => "the argument '"@ + s + "' cannot be used multiple times"@,
        CliErrorView::MissingValue(s) => "a value is required for '"@ + s + "' but none was supplied"@,
        CliErrorView::InvalidValue { value, reason } => "invalid value '"@ + value + "' for '--port <PORT>': "@
            + reason,
        CliErrorView::UnexpectedValue { value, option } => "unexpected value '"@ + value + "' for '"@
            + option + "' found; no more were expected"@,
        CliErrorView::MissingArguments(names) => "the following required arguments were not provided:"@
            + listed(names),
    }
}

/// Each name on a line of its own, indented by two spaces.
pub open spec fn listed(names: Seq<Seq<char>>) -> Seq<char>
    decreases names.len(),
{
    if names.len() == 0 {
        Seq::empty()
    } else {
        listed(names.drop_last()) + "\n  "@ + names.last()
    }
}


/// The arguments read so far.
struct ScanState {
    positionals: Vec<String>,
    trailing: Vec<String>,
    dashdash: bool,
    port: Option<u16>,
    pending: Option<Option<String>>,
    no_switch: bool,
}

impl View for ScanState {
    type V = ScanView;

    closed spec fn view(&self) -> ScanView {
        ScanView {
            positionals: strings_view(self.positionals@),
            trailing: strings_view(self.trailing@),
            dashdash: self.dashdash,
            port: self.port,
            pending: match self.pending {
                None => None,
                Some(v) => Some(opt_chars(v)),
            },
            no_switch: self.no_switch,
        }
    }
}

fn subcommand_from(name: &Vec<char>) -> (r: Option<Subcommand>)
    ensures
        r == subcommand_named(name@),
{
    if chars_eq(name, "config") {
        Some(Subcommand::Config)
    } else if chars_eq(name, "start") {
        Some(Subcommand::Start)
    } else if chars_eq(name, "stop") {
        Some(Subcommand::Stop)
    } else if chars_eq(name, "stream") {
        Some(Subcommand::Stream)
    } else if chars_eq(name, "switch") {
        Some(Subcommand::Switch)
    } else if chars_eq(name, "status") {
        Some(Subcommand::Status)
    } else if chars_eq(name, "__relay-server") {
        Some(Subcommand::RelayServer)
    } else {
        None
    }
}

/// Splits a long option `--name[=value]` into its name and value.
fn split_option(t: &Vec<char>) -> (r: (Vec<char>, Option<Vec<char>>))
    requires
        t.len() >= 2,
    ensures
        r.0@ == option_name(t@),
        match r.1 {
            Some(v) => option_value(t@) == Some(v@),
            None => option_value(t@) is None,
        },
{
    let n = t.len();
    let ghost body = t@.skip(2);
    let mut i: usize = 2;
    while i < n && t[i] != '='
        invariant
            2 <= i <= n == t@.len(),
            body == t@.skip(2),
            eq_pos(body) == (i - 2) + eq_pos(t@.skip(i as int)),
        decreases n - i,
    {
        assert(t@.skip(i as int).drop_first() == t@.skip(i as int + 1));
        i = i + 1;
    }
    assert(eq_pos(t@.skip(i as int)) == 0);
    let name = sub_chars(t, 2, i);
    assert(name@ == body.take(i - 2));
    if i < n {
        let value = sub_chars(t, i + 1, n);
        assert(value@ == body.skip(i - 2 + 1));
        (name, Some(value))
    } else {
        (name, None)
    }
}

fn prefixed_chars(prefix: &str, rest: &Vec<char>) -> (s: String)
    ensures
        s@ == prefix@ + rest@,
{
    let mut out: Vec<char> = Vec::new();
    extend_str(&mut out, prefix);
    extend_chars(&mut out, rest);
    string_of(&out)
}

fn short_option(c: char) -> (s: String)
    ensures
        s@ == seq!['-', c],
{
    let mut out: Vec<char> = Vec::new();
    out.push('-');
    out.push(c);
    string_of(&out)
}

/// Reads a `--port` value as `port_parse` says.
fn port_value(v: &Vec<char>) -> (r: Result<u16, String>)
    ensures
        match port_parse(v@) {
            Ok(p) => r == Ok::<u16, String>(p),
            Err(reason) => r is Err && r->Err_0@ == reason,
        },
{
    let n = v.len();
    if n == 0 {
        return Err("cannot parse integer from empty string".to_owned());
    }
    let negative = v[0] == '-';
    let start: usize = if v[0] == '+' || v[0] == '-' { 1 } else { 0 };
    let ghost digits = if v@[0] == '+' || v@[0] == '-' { v@.drop_first() } else { v@ };
    assert(digits == v@.skip(start as int));
    if start == n {
        return Err("invalid digit found in string".to_owned());
    }
    let limit: u128 = if negative { 9223372036854775808 } else { 9223372036854775807 };
    let mut acc: u128 = 0;
    let mut over = false;
    let mut i: usize = start;
    assert(digits.take(0) == Seq::<char>::empty());
    while i < n && '0' <= v[i] && v[i] <= '9'
        invariant
            start <= i <= n == v@.len(),
            digits == v@.skip(start as int),
            limit == i64_limit(negative),
            digit_run(digits) == (i - start) + digit_run(v@.skip(i as int)),
            !over ==> acc == digits_value(digits.take(i - start)) && acc <= limit,
            over ==> digits_value(digits.take(i - start)) > limit,
        decreases n - i,
    {
        let c = v[i];
        proof {
            assert(v@.skip(i as int).drop_first() == v@.skip(i as int + 1));
            assert(v@.skip(i as int)[0] == c);
            assert(digits.take(i - start + 1).drop_last() == digits.take(i - start));
            assert(digits.take(i - start + 1).last() == c);
        }
        if !over {
            let d: u128 = (c as u128) - 48;
            acc = acc * 10 + d;
            if acc > limit {
                over = true;
            }
        }
        i = i + 1;
    }
    assert(digit_run(v@.skip(i as int)) == 0);
    assert(digit_run(digits) == i - start);
    if over {
        if negative {
            return Err("number too small to fit in target type".to_owned());
        }
        return Err("number too large to fit in target type".to_owned());
    }
    if i < n {
        return Err("invalid digit found in string".to_owned());
    }
    if acc == 0 || (!negative && acc <= 65535) {
        return Ok(acc as u16);
    }
    let mut out: Vec<char> = Vec::new();
    if negative {
        out.push('-');
    }
    let digits_text = decimal_chars(acc as u64);
    extend_chars(&mut out, &digits_text);
    extend_str(&mut out, " is not in 0..=65535");
    proof {
        if negative {
            assert(seq!['-'] + decimal(acc as nat) == Seq::<char>::empty().push('-') + decimal(acc as nat));
        }
    }
    Err(string_of(&out))
}

/// Takes the pending `--port` value, as `resolve` says.
fn resolve_exec(st: &mut ScanState) -> (r: Result<(), CliError>)
    ensures
        match resolve(old(st)@) {
            Ok(s) => r is Ok && final(st)@ == s,
            Err(e) => r is Err && r->Err_0@ == e,
        },
{
    let mut pending: Option<Option<String>> = None;
    std::mem::swap(&mut pending, &mut st.pending);
    match pending {
        None => Ok(()),
        Some(None) => Err(CliError::MissingValue("--port <PORT>".to_owned())),
        Some(Some(v)) => {
            if st.port.is_some() {
                return Err(CliError::RepeatedArgument("--port <PORT>".to_owned()));
            }
            let vc = chars_of(v.as_str());
            match port_value(&vc) {
                Ok(p) => {
                    st.port = Some(p);
                    Ok(())
                },
                Err(reason) => Err(CliError::InvalidValue { value: v, reason }),
            }
        },
    }
}

/// Reads one token, as `step` says.
fn step_exec(sub: Subcommand, t: &str, next: Option<&str>, st: &mut ScanState) -> (r: Result<usize, CliError>)
    ensures
        match step(sub, t@, opt_str_view(next), old(st)@) {
            Ok((s2, n)) => r == Ok::<usize, CliError>(n as usize) && final(st)@ == s2,
            Err(e) => r is Err && r->Err_0@ == e,
        },
        r is Ok ==> 1 <= r->Ok_0 <= 2 && (r->Ok_0 == 2 ==> next is Some),
{
    let tc = chars_of(t);
    let limit: usize = match sub {
        Subcommand::Config => 2,
        Subcommand::Stream => 1,
        Subcommand::Switch => 1,
        _ => 0,
    };
    if st.dashdash {
        if sub == Subcommand::Stream {
            st.trailing.push(t.to_owned());
            proof {
                assert(strings_view(st.trailing@) == strings_view(old(st).trailing@).push(t@));
            }
            return Ok(1);
        }
        if st.positionals.len() < limit {
            st.positionals.push(t.to_owned());
            proof {
                assert(strings_view(st.positionals@) == strings_view(old(st).positionals@).push(t@));
            }
            return Ok(1);
        }
        return Err(CliError::UnexpectedArgument(t.to_owned()));
    }
    if chars_eq(&tc, "--") {
        match resolve_exec(st) {
            Ok(()) => {
                st.dashdash = true;
                return Ok(1);
            },
            Err(e) => {
                return Err(e);
            },
        }
    }
    if tc.len() >= 2 && tc[0] == '-' && tc[1] == '-' {
        let (name, value) = split_option(&tc);
        if chars_eq(&name, "help") {
            match value {
                Some(v) => {
                    return Err(CliError::UnexpectedValue { value: string_of(&v), option: "--help".to_owned() });
                },
                None => {},
            }
            match resolve_exec(st) {
                Ok(()) => {
                    return Err(CliError::Help(Some(sub)));
                },
                Err(e) => {
                    return Err(e);
                },
            }
        }
        if sub == Subcommand::Config && chars_eq(&name, "port") {
            match resolve_exec(st) {
                Ok(()) => {},
                Err(e) => {
                    return Err(e);
                },
            }
            match value {
                Some(v) => {
                    st.pending = Some(Some(string_of(&v)));
                    match resolve_exec(st) {
                        Ok(()) => {
                            return Ok(1);
                        },
                        Err(e) => {
                            return Err(e);
                        },
                    }
                },
                None => {},
            }
            match next {
                Some(nx) => {
                    let nc = chars_of(nx);
                    if !(nc.len() >= 2 && nc[0] == '-') {
                        st.pending = Some(Some(nx.to_owned()));
                        return Ok(2);
                    }
                },
                None => {},
            }
            st.pending = Some(None);
            return Ok(1);
        }
        if sub == Subcommand::Stream && chars_eq(&name, "no-switch") {
            match value {
                Some(v) => {
                    return Err(CliError::UnexpectedValue { value: string_of(&v), option: "--no-switch".to_owned() });
                },
                None => {},
            }
            if st.no_switch {
                return Err(CliError::RepeatedArgument("--no-switch".to_owned()));
            }
            st.no_switch = true;
            return Ok(1);
        }
        return Err(CliError::UnknownArgument(prefixed_chars("--", &name)));
    }
    if tc.len() >= 2 && tc[0] == '-' {
        if tc[1] == 'h' {
            match resolve_exec(st) {
                Ok(()) => {
                    return Err(CliError::Help(Some(sub)));
                },
                Err(e) => {
                    return Err(e);
                },
            }
        }
        return Err(CliError::UnknownArgument(short_option(tc[1])));
    }
    if st.positionals.len() < limit {
        match resolve_exec(st) {
            Ok(()) => {},
            Err(e) => {
                return Err(e);
            },
        }
        let ghost mid = st@;
        st.positionals.push(t.to_owned());
        proof {
            assert(strings_view(st.positionals@) == mid.positionals.push(t@));
        }
        return Ok(1);
    }
    Err(CliError::UnexpectedArgument(t.to_owned()))
}

fn finish_exec(sub: Subcommand, st: ScanState) -> (r: Result<Cli, CliError>)
    ensures
        match r {
            Ok(cli) => finish(sub, st@) == Ok::<CommandView, CliErrorView>(cli.command@),
            Err(e) => finish(sub, st@) == Err::<CommandView, CliErrorView>(e@),
        },
{
    let p = &st.positionals;
    let first: Option<String> = if p.len() > 0 { Some(p[0].clone()) } else { None };
    let command = match sub {
        Subcommand::Config => {
            if p.len() < 2 {
                let mut missing: Vec<String> = Vec::new();
                if p.len() == 0 {
                    missing.push("<UPSTREAM>".to_owned());
                }
                missing.push("<KEY>".to_owned());
                proof {
                    if p.len() == 0 {
                        assert(strings_view(missing@) == seq!["<UPSTREAM>"@, "<KEY>"@]);
                    } else {
                        assert(strings_view(missing@) == seq!["<KEY>"@]);
                    }
                }
                return Err(CliError::MissingArguments(missing));
            }
            Command::Config { upstream: p[0].clone(), key: p[1].clone(), port: st.port }
        },
        Subcommand::Start => Command::Start,
        Subcommand::Stop => Command::Stop,
        Subcommand::Stream => Command::Stream {
            slug: first,
            no_switch: st.no_switch,
            command: st.trailing,
        },
        Subcommand::Switch => Command::Switch { slug: first },
        Subcommand::Status => Command::Status,
        Subcommand::RelayServer => Command::RelayServer,
    };
    Ok(Cli { command })
}

/// What `help [names...]` asks for, as `help_for` says.
fn help_exec(args: &[&str]) -> (e: CliError)
    requires
        args@.len() >= 2,
    ensures
        e@ == help_for(args_view(args@).skip(2)),
{
    let ghost rest = args_view(args@).skip(2);
    if args.len() == 2 {
        return CliError::Help(None);
    }
    let first = chars_of(args[2]);
    assert(rest[0] == first@);
    if chars_eq(&first, "help") {
        return CliError::Help(None);
    }
    match subcommand_from(&first) {
        None => CliError::UnknownSubcommand(args[2].to_owned()),
        Some(sub) => if args.len() == 3 {
            CliError::Help(Some(sub))
        } else {
            assert(rest[1] == args@[3]@);
            CliError::UnknownSubcommand(args[3].to_owned())
        },
    }
}

impl Cli {
    /// Parses a command line whose first element is the program name.
    pub fn try_parse_from(args: &[&str]) -> (r: Result<Cli, CliError>)
        ensures
            match r {
                Ok(cli) => parse_args(args_view(args@)) == Ok::<CommandView, CliErrorView>(cli.command@),
                Err(e) => parse_args(args_view(args@)) == Err::<CommandView, CliErrorView>(e@),
            },
    {
        let ghost all = args_view(args@);
        if args.len() < 2 {
            return Err(CliError::MissingSubcommand);
        }
        let name = chars_of(args[1]);
        assert(all[1] == name@);
        if chars_eq(&name, "--") {
            if args.len() == 2 {
                return Err(CliError::MissingSubcommand);
            }
            assert(all[2] == args@[2]@);
            return Err(CliError::UnexpectedArgument(args[2].to_owned()));
        }
        if name.len() >= 2 && name[0] == '-' && name[1] == '-' {
            let (n, value) = split_option(&name);
            if chars_eq(&n, "help") {
                return match value {
                    Some(v) => Err(CliError::UnexpectedValue { value: string_of(&v), option: "--help".to_owned() }),
                    None => Err(CliError::Help(None)),
                };
            }
            return Err(CliError::UnknownArgument(prefixed_chars("--", &n)));
        }
        if name.len() >= 2 && name[0] == '-' {
            if name[1] == 'h' {
                return Err(CliError::Help(None));
            }
            return Err(CliError::UnknownArgument(short_option(name[1])));
        }
        if chars_eq(&name, "help") {
            return Err(help_exec(args));
        }
        let sub = match subcommand_from(&name) {
            Some(s) => s,
            None => {
                return Err(CliError::UnknownSubcommand(args[1].to_owned()));
            },
        };
        let mut st = ScanState {
            positionals: Vec::new(),
            trailing: Vec::new(),
            dashdash: false,
            port: None,
            pending: None,
            no_switch: false,
        };
        assert(st@ == empty_scan()) by {
            assert(strings_view(st.positionals@) =~= Seq::<Seq<char>>::empty());
            assert(strings_view(st.trailing@) =~= Seq::<Seq<char>>::empty());
        }
        let mut i: usize = 2;
        while i < args.len()
            invariant
                2 <= i <= args.len(),
                all == args_view(args@),
                parse_args(all) == (match scan(sub, all.skip(2), empty_scan()) {
                    Err(e) => Err(e),
                    Ok(v) => match resolve(v) {
                        Err(e) => Err(e),
                        Ok(v2) => finish(sub, v2),
                    },
                }),
                scan(sub, all.skip(2), empty_scan()) == scan(sub, all.skip(i as int), st@),
            decreases args.len() - i,
        {
            let ghost rest = all.skip(i as int);
            let ghost before = st@;
            let next: Option<&str> = if i + 1 < args.len() { Some(args[i + 1]) } else { None };
            assert(rest[0] == args@[i as int]@);
            assert(opt_str_view(next) == (if rest.len() > 1 { Some(rest[1]) } else { None::<Seq<char>> }));
            match step_exec(sub, args[i], next, &mut st) {
                Err(e) => {
                    assert(scan(sub, rest, before) == Err::<ScanView, CliErrorView>(e@));
                    return Err(e);
                },
                Ok(n) => {
                    assert(rest.skip(n as int) == all.skip(i + n));
                    i = i + n;
                },
            }
        }
        proof {
            assert(all.skip(i as int) == Seq::<Seq<char>>::empty());
            assert(scan(sub, all.skip(2), empty_scan()) == Ok::<ScanView, CliErrorView>(st@));
        }
        match resolve_exec(&mut st) {
            Ok(()) => {},
            Err(e) => {
                return Err(e);
            },
        }
        finish_exec(sub, st)
    }
}

fn quoted(before: &str, s: &String, after: &str) -> (r: String)
    ensures
        r@ == before@ + s@ + after@,
{
    let mut out: Vec<char> = Vec::new();
    extend_str(&mut out, before);
    extend_str(&mut out, s.as_str());
    extend_str(&mut out, after);
    string_of(&out)
}

impl CliError {
    /// The message shown for this error (empty where help is shown instead).
    pub fn message(&self) -> (m: String)
        ensures
            m@ == error_text(self@),
    {
        match self {
            CliError::Help(_) => String::new(),
            CliError::MissingSubcommand => String::new(),
            CliError::UnknownSubcommand(s) => quoted("unrecognized subcommand '", s, "'"),
            CliError::UnknownArgument(s) => quoted("unexpected argument '", s, "' found"),
            CliError::UnexpectedArgument(s) => quoted("unexpected argument '", s, "' found"),
            CliError::RepeatedArgument(s) => quoted("the argument '", s, "' cannot be used multiple times"),
            CliError::MissingValue(s) => quoted("a value is required for '", s, "' but none was supplied"),
            CliError::InvalidValue { value, reason } => {
                let mut out: Vec<char> = Vec::new();
                extend_str(&mut out, "invalid value '");
                extend_str(&mut out, value.as_str());
                extend_str(&mut out, "' for '--port <PORT>': ");
                extend_str(&mut out, reason.as_str());
                string_of(&out)
            },
            CliError::UnexpectedValue { value, option } => {
                let mut out: Vec<char> = Vec::new();
                extend_str(&mut out, "unexpected value '");
                extend_str(&mut out, value.as_str());
                extend_str(&mut out, "' for '");
                extend_str(&mut out, option.as_str());
                extend_str(&mut out, "' found; no more were expected");
                string_of(&out)
            },
            CliError::MissingArguments(names) => {
                let mut out: Vec<char> = Vec::new();
                extend_str(&mut out, "the following required arguments were not provided:");
                let ghost views = strings_view(names@);
                let ghost head = out@;
                let mut i: usize = 0;
                assert(views.take(0) == Seq::<Seq<char>>::empty());
                while i < names.len()
                    invariant
                        i <= names.len(),
                        views == strings_view(names@),
                        out@ == head + listed(views.take(i as int)),
                    decreases names.len() - i,
                {
                    extend_str(&mut out, "\n  ");
                    extend_str(&mut out, names[i].as_str());
                    proof {
                        let t = views.take(i as int + 1);
                        assert(t.drop_last() == views.take(i as int));
                        assert(t.last() == names@[i as int]@);
                    }
                    i = i + 1;
                }
                assert(views.take(names.len() as int) == views);
                string_of(&out)
            },
        }
    }
}


/// After `--`, every token of `stream` joins its trailing command.
proof fn lemma_trailing_collects(toks: Seq<Seq<char>>, st: ScanView)
    requires
        st.dashdash,
    ensures
        scan(Subcommand::Stream, toks, st) == Ok::<ScanView, CliErrorView>(
            ScanView { trailing: st.trailing + toks, ..st },
        ),
    decreases toks.len(),
{
    if toks.len() == 0 {
        assert(st.trailing + toks == st.trailing);
    } else {
        let st2 = ScanView { trailing: st.trailing.push(toks[0]), ..st };
        lemma_trailing_collects(toks.skip(1), st2);
        assert(st.trailing.push(toks[0]) + toks.skip(1) == st.trailing + toks);
    }
}

proof fn lemma_stream_is_named()
    ensures
        subcommand_named("stream"@) == Some(Subcommand::Stream),
        "stream"@ != "help"@,
        "stream"@ != "--"@,
        !is_option("stream"@),
        "--"@ == seq!['-', '-'],
{
    reveal_strlit("stream");
    reveal_strlit("config");
    reveal_strlit("start");
    reveal_strlit("stop");
    reveal_strlit("help");
    reveal_strlit("-h");
    reveal_strlit("--help");
    reveal_strlit("--");
    assert("stream"@[2] != "start"@[2]);
    assert("stream"@.len() != "help"@.len());
    assert("stream"@.len() != "--"@.len());
    assert("stream"@[0] != '-');
    assert("stream"@[2] != "stop"@[2]);
}

/// Whatever follows `--` on a `stream` command line is the command to run,
/// never the slug, even when it looks like an option.
pub proof fn law_stream_command_after_separator(prog: Seq<char>, command: Seq<Seq<char>>)
    ensures
        parse_args(seq![prog, "stream"@, "--"@] + command) == Ok::<CommandView, CliErrorView>(
            CommandView::Stream { slug: None, no_switch: false, command },
        ),
{
    lemma_stream_is_named();
    let args = seq![prog, "stream"@, "--"@] + command;
    let toks = args.skip(2);
    assert(toks[0] == "--"@);
    assert(toks.skip(1) == command);
    let st1 = ScanView { dashdash: true, ..empty_scan() };
    assert(step(Subcommand::Stream, toks[0], if toks.len() > 1 { Some(toks[1]) } else { None }, empty_scan())
        == Ok::<(ScanView, nat), CliErrorView>((st1, 1)));
    lemma_trailing_collects(command, st1);
    assert(Seq::<Seq<char>>::empty() + command == command);
}

/// A `stream` slug written before `--` is the slug, and what follows `--`
/// is the command.
pub proof fn law_stream_slug_before_separator(prog: Seq<char>, slug: Seq<char>, command: Seq<Seq<char>>)
    requires
        !is_option(slug),
    ensures
        parse_args(seq![prog, "stream"@, slug, "--"@] + command) == Ok::<CommandView, CliErrorView>(
            CommandView::Stream { slug: Some(slug), no_switch: false, command },
        ),
{
    lemma_stream_is_named();
    reveal_strlit("-h");
    let args = seq![prog, "stream"@, slug, "--"@] + command;
    let toks = args.skip(2);
    assert(toks[0] == slug);
    assert(toks[1] == "--"@);
    assert(slug != "--"@);
    assert(slug != "-h"@);
    let st1 = ScanView { positionals: seq![slug], ..empty_scan() };
    assert(empty_scan().positionals.push(slug) == seq![slug]);
    assert(step(Subcommand::Stream, toks[0], Some(toks[1]), empty_scan())
        == Ok::<(ScanView, nat), CliErrorView>((st1, 1)));
    let toks1 = toks.skip(1);
    assert(toks1[0] == "--"@);
    assert(toks1.skip(1) == command);
    let st2 = ScanView { dashdash: true, ..st1 };
    assert(step(Subcommand::Stream, toks1[0], if toks1.len() > 1 { Some(toks1[1]) } else { None }, st1)
        == Ok::<(ScanView, nat), CliErrorView>((st2, 1)));
    lemma_trailing_collects(command, st2);
    assert(Seq::<Seq<char>>::empty() + command == command);
    let fin = ScanView { trailing: command, ..st2 };
    assert(scan(Subcommand::Stream, toks1, st1) == Ok::<ScanView, CliErrorView>(fin));
    assert(scan(Subcommand::Stream, toks, empty_scan()) == Ok::<ScanView, CliErrorView>(fin));
    assert(fin.positionals[0] == slug);
}


proof fn lemma_no_switch_option()
    ensures
        is_long_option("--no-switch"@),
        option_name("--no-switch"@) == "no-switch"@,
        option_value("--no-switch"@) is None,
        "--no-switch"@ != "--"@,
        "--no-switch"@ != "-h"@,
        "no-switch"@ != "help"@,
{
    reveal_strlit("--no-switch");
    reveal_strlit("no-switch");
    reveal_strlit("--");
    reveal_strlit("-h");
    reveal_strlit("help");
    let body = "--no-switch"@.skip(2);
    assert(body == "no-switch"@);
    reveal_with_fuel(eq_pos, 10);
    assert(eq_pos(body) == 9);
    assert(body.take(9) == body);
}

/// `stream --no-switch -- command...` attaches without going live: the flag
/// is read, no slug is taken, and the command follows `--`.
pub proof fn law_stream_no_switch(prog: Seq<char>, command: Seq<Seq<char>>)
    ensures
        parse_args(seq![prog, "stream"@, "--no-switch"@, "--"@] + command) == Ok::<CommandView, CliErrorView>(
            CommandView::Stream { slug: None, no_switch: true, command },
        ),
{
    lemma_stream_is_named();
    lemma_no_switch_option();
    let args = seq![prog, "stream"@, "--no-switch"@, "--"@] + command;
    let toks = args.skip(2);
    assert(toks[0] == "--no-switch"@);
    assert(toks[1] == "--"@);
    let st1 = ScanView { no_switch: true, ..empty_scan() };
    assert(step(Subcommand::Stream, toks[0], Some(toks[1]), empty_scan())
        == Ok::<(ScanView, nat), CliErrorView>((st1, 1)));
    let toks1 = toks.skip(1);
    assert(toks1[0] == "--"@);
    assert(toks1.skip(1) == command);
    let st2 = ScanView { dashdash: true, ..st1 };
    assert(step(Subcommand::Stream, toks1[0], if toks1.len() > 1 { Some(toks1[1]) } else { None }, st1)
        == Ok::<(ScanView, nat), CliErrorView>((st2, 1)));
    lemma_trailing_collects(command, st2);
    assert(Seq::<Seq<char>>::empty() + command == command);
    let fin = ScanView { trailing: command, ..st2 };
    assert(scan(Subcommand::Stream, toks1, st1) == Ok::<ScanView, CliErrorView>(fin));
    assert(scan(Subcommand::Stream, toks, empty_scan()) == Ok::<ScanView, CliErrorView>(fin));
}

/// Where the first `=` of `s` stands is within `s`.
proof fn lemma_eq_pos_bound(s: Seq<char>)
    ensures
        eq_pos(s) <= s.len(),
    decreases s.len(),
{
    if s.len() > 0 && s[0] != '=' {
        lemma_eq_pos_bound(s.drop_first());
    }
}

/// The only long option named `no-switch` without a value is `--no-switch`.
proof fn lemma_flag_token(t: Seq<char>)
    requires
        is_long_option(t),
        option_name(t) == "no-switch"@,
        option_value(t) is None,
    ensures
        t == "--no-switch"@,
{
    reveal_strlit("--no-switch");
    reveal_strlit("no-switch");
    let body = t.skip(2);
    lemma_eq_pos_bound(body);
    assert(body.take(eq_pos(body) as int) == body);
    assert(t.len() == "--no-switch"@.len());
    assert forall|k: int| 0 <= k < t.len() implies t[k] == "--no-switch"@[k] by {
        if k >= 2 {
            assert(t[k] == body[k - 2]);
        }
    }
    assert(t =~= "--no-switch"@);
}

/// Whether `--no-switch` stands among `toks` before any `--`.
pub open spec fn flag_before_separator(toks: Seq<Seq<char>>) -> bool {
    exists|i: int|
        0 <= i < toks.len() && #[trigger] toks[i] == "--no-switch"@
            && forall|j: int| 0 <= j < i ==> #[trigger] toks[j] != "--"@
}

/// Reading `stream` arguments before `--`: the flag ends up set exactly when
/// it was set already or `--no-switch` stands before the first `--`.
proof fn lemma_stream_scan_flag(toks: Seq<Seq<char>>, st: ScanView)
    requires
        !st.dashdash,
        st.pending is None,
    ensures
        scan(Subcommand::Stream, toks, st) matches Ok(fin) ==> (fin.pending is None
            && fin.no_switch == (st.no_switch || flag_before_separator(toks))),
    decreases toks.len(),
{
    lemma_no_switch_option();
    if toks.len() == 0 {
        assert(!flag_before_separator(toks));
    } else {
        let t = toks[0];
        let next = if toks.len() > 1 { Some(toks[1]) } else { None };
        let rest = toks.skip(1);
        assert(resolve(st) == Ok::<ScanView, CliErrorView>(st));
        if t == "--"@ {
            let st1 = ScanView { dashdash: true, ..st };
            assert(step(Subcommand::Stream, t, next, st) == Ok::<(ScanView, nat), CliErrorView>((st1, 1)));
            lemma_trailing_collects(rest, st1);
            assert forall|i: int| 0 <= i < toks.len() && #[trigger] toks[i] == "--no-switch"@ implies
                !(forall|j: int| 0 <= j < i ==> #[trigger] toks[j] != "--"@) by {
                assert(i != 0);
                assert(toks[0] == "--"@);
            }
        } else if t == "--no-switch"@ {
            if !st.no_switch {
                let st1 = ScanView { no_switch: true, ..st };
                assert(step(Subcommand::Stream, t, next, st) == Ok::<(ScanView, nat), CliErrorView>((st1, 1)));
                lemma_stream_scan_flag(rest, st1);
            }
            assert(toks[0] == "--no-switch"@);
            assert(forall|j: int| 0 <= j < 0 ==> #[trigger] toks[j] != "--"@);
            assert(flag_before_separator(toks));
        } else {
            if is_long_option(t) && option_name(t) == "no-switch"@ && option_value(t) is None {
                lemma_flag_token(t);
            }
            match step(Subcommand::Stream, t, next, st) {
                Err(_) => {},
                Ok((st1, n)) => {
                    assert(n == 1);
                    assert(st1.no_switch == st.no_switch);
                    assert(st1.pending is None);
                    assert(!st1.dashdash);
                    lemma_stream_scan_flag(rest, st1);
                    assert(flag_before_separator(toks) == flag_before_separator(rest)) by {
                        if flag_before_separator(toks) {
                            let i = choose|i: int|
                                0 <= i < toks.len() && #[trigger] toks[i] == "--no-switch"@
                                    && forall|j: int| 0 <= j < i ==> #[trigger] toks[j] != "--"@;
                            assert(i != 0);
                            assert(rest[i - 1] == "--no-switch"@);
                            assert forall|j: int| 0 <= j < i - 1 implies #[trigger] rest[j] != "--"@ by {
                                assert(rest[j] == toks[j + 1]);
                            }
                        }
                        if flag_before_separator(rest) {
                            let i = choose|i: int|
                                0 <= i < rest.len() && #[trigger] rest[i] == "--no-switch"@
                                    && forall|j: int| 0 <= j < i ==> #[trigger] rest[j] != "--"@;
                            assert(toks[i + 1] == "--no-switch"@);
                            assert forall|j: int| 0 <= j < i + 1 implies #[trigger] toks[j] != "--"@ by {
                                if j > 0 {
                                    assert(toks[j] == rest[j - 1]);
                                }
                            }
                        }
                    }
                },
            }
        }
    }
}

/// `--no-switch` given to `stream` sets the flag wherever it stands before
/// `--`, the last place included, and nothing else sets it: whenever a
/// `stream` command line is accepted, its flag says whether `--no-switch`
/// stands among its arguments before any `--`.
pub proof fn law_stream_flag_anywhere(prog: Seq<char>, rest: Seq<Seq<char>>)
    ensures
        parse_args(seq![prog, "stream"@] + rest) matches Ok(CommandView::Stream { no_switch, .. })
            ==> no_switch == flag_before_separator(rest),
        parse_args(seq![prog, "stream"@] + rest) matches Ok(c) ==> c is Stream,
{
    lemma_stream_is_named();
    let args = seq![prog, "stream"@] + rest;
    assert(args.skip(2) == rest);
    lemma_stream_scan_flag(rest, empty_scan());
}

/// `stream --no-switch`, the flag last and nothing else given, attaches
/// without going live.
pub proof fn law_stream_no_switch_last(prog: Seq<char>)
    ensures
        parse_args(seq![prog, "stream"@, "--no-switch"@]) == Ok::<CommandView, CliErrorView>(
            CommandView::Stream { slug: None, no_switch: true, command: Seq::empty() },
        ),
{
    lemma_stream_is_named();
    lemma_no_switch_option();
    let args = seq![prog, "stream"@, "--no-switch"@];
    let toks = args.skip(2);
    assert(toks == seq!["--no-switch"@]);
    let st1 = ScanView { no_switch: true, ..empty_scan() };
    assert(step(Subcommand::Stream, toks[0], None, empty_scan())
        == Ok::<(ScanView, nat), CliErrorView>((st1, 1)));
    assert(toks.skip(1) == Seq::<Seq<char>>::empty());
    assert(scan(Subcommand::Stream, toks.skip(1), st1) == Ok::<ScanView, CliErrorView>(st1));
    assert(scan(Subcommand::Stream, toks, empty_scan()) == Ok::<ScanView, CliErrorView>(st1));
}

/// `stream SLUG --no-switch` and `stream --no-switch SLUG` both take the slug
/// and the flag.
pub proof fn law_stream_slug_with_no_switch(prog: Seq<char>, slug: Seq<char>)
    requires
        !is_option(slug),
    ensures
        parse_args(seq![prog, "stream"@, slug, "--no-switch"@]) == Ok::<CommandView, CliErrorView>(
            CommandView::Stream { slug: Some(slug), no_switch: true, command: Seq::empty() },
        ),
        parse_args(seq![prog, "stream"@, "--no-switch"@, slug]) == Ok::<CommandView, CliErrorView>(
            CommandView::Stream { slug: Some(slug), no_switch: true, command: Seq::empty() },
        ),
{
    lemma_stream_is_named();
    lemma_no_switch_option();
    reveal_strlit("--");
    let with_slug = ScanView { positionals: seq![slug], ..empty_scan() };
    let flagged = ScanView { no_switch: true, ..empty_scan() };
    let both = ScanView { positionals: seq![slug], no_switch: true, ..empty_scan() };
    assert(empty_scan().positionals.push(slug) == seq![slug]);
    assert(slug != "--"@);

    let toks = seq![prog, "stream"@, slug, "--no-switch"@].skip(2);
    assert(toks == seq![slug, "--no-switch"@]);
    assert(step(Subcommand::Stream, slug, Some("--no-switch"@), empty_scan())
        == Ok::<(ScanView, nat), CliErrorView>((with_slug, 1)));
    assert(toks.skip(1) == seq!["--no-switch"@]);
    assert(step(Subcommand::Stream, "--no-switch"@, None, with_slug)
        == Ok::<(ScanView, nat), CliErrorView>((both, 1)));
    assert(toks.skip(1).skip(1) == Seq::<Seq<char>>::empty());
    assert(scan(Subcommand::Stream, toks.skip(1).skip(1), both) == Ok::<ScanView, CliErrorView>(both));
    assert(scan(Subcommand::Stream, toks.skip(1), with_slug) == Ok::<ScanView, CliErrorView>(both));
    assert(scan(Subcommand::Stream, toks, empty_scan()) == Ok::<ScanView, CliErrorView>(both));

    let toks2 = seq![prog, "stream"@, "--no-switch"@, slug].skip(2);
    assert(toks2 == seq!["--no-switch"@, slug]);
    assert(step(Subcommand::Stream, "--no-switch"@, Some(slug), empty_scan())
        == Ok::<(ScanView, nat), CliErrorView>((flagged, 1)));
    assert(toks2.skip(1) == seq![slug]);
    assert(flagged.positionals.push(slug) == seq![slug]);
    assert(step(Subcommand::Stream, slug, None, flagged)
        == Ok::<(ScanView, nat), CliErrorView>((both, 1)));
    assert(toks2.skip(1).skip(1) == Seq::<Seq<char>>::empty());
    assert(scan(Subcommand::Stream, toks2.skip(1).skip(1), both) == Ok::<ScanView, CliErrorView>(both));
    assert(scan(Subcommand::Stream, toks2.skip(1), flagged) == Ok::<ScanView, CliErrorView>(both));
    assert(scan(Subcommand::Stream, toks2, empty_scan()) == Ok::<ScanView, CliErrorView>(both));
}

}
