use multiglass::cli::{Cli, CliError, Command, Subcommand};

#[test]
fn stream_command_after_separator_is_not_consumed_as_slug() {
    let cli = Cli::try_parse_from(&["multiglass", "stream", "--", "powershell.exe", "-NoLogo"])
        .unwrap();

    let Command::Stream { slug, command, .. } = cli.command else {
        panic!("expected stream command");
    };
    assert_eq!(slug, None);
    assert_eq!(command, ["powershell.exe", "-NoLogo"]);
}

#[test]
fn stream_still_accepts_a_positional_slug_before_command() {
    let cli =
        Cli::try_parse_from(&["multiglass", "stream", "work", "--", "cmd.exe", "/d"]).unwrap();

    let Command::Stream { slug, command, .. } = cli.command else {
        panic!("expected stream command");
    };
    assert_eq!(slug.as_deref(), Some("work"));
    assert_eq!(command, ["cmd.exe", "/d"]);
}

#[test]
fn stream_no_switch_flag_is_read() {
    let cli = Cli::try_parse_from(&["multiglass", "stream", "--no-switch", "tab"]).unwrap();
    let Command::Stream { slug, no_switch, command } = cli.command else {
        panic!("expected stream command");
    };
    assert_eq!(slug.as_deref(), Some("tab"));
    assert!(no_switch);
    assert!(command.is_empty());
}

#[test]
fn stream_without_separator_rejects_a_second_positional() {
    let err = Cli::try_parse_from(&["multiglass", "stream", "work", "bash"]).unwrap_err();
    assert!(matches!(err, CliError::UnexpectedArgument(ref a) if a == "bash"));
}

#[test]
fn stream_no_switch_twice_is_refused() {
    let err = Cli::try_parse_from(&["multiglass", "stream", "--no-switch", "--no-switch"]).unwrap_err();
    assert!(matches!(err, CliError::RepeatedArgument(ref a) if a == "--no-switch"));
}

#[test]
fn stream_flag_with_value_is_refused() {
    let err = Cli::try_parse_from(&["multiglass", "stream", "--no-switch=yes"]).unwrap_err();
    assert!(matches!(err, CliError::UnexpectedValue { ref value, ref option } if value == "yes" && option == "--no-switch"));
    assert_eq!(err.message(), "unexpected value 'yes' for '--no-switch' found; no more were expected");
}

#[test]
fn config_reads_positionals_and_port() {
    let cli = Cli::try_parse_from(&["multiglass", "config", "https://hub/", "k3y", "--port", "4000"])
        .unwrap();
    let Command::Config { upstream, key, port } = cli.command else {
        panic!("expected config command");
    };
    assert_eq!(upstream, "https://hub/");
    assert_eq!(key, "k3y");
    assert_eq!(port, Some(4000));
}

#[test]
fn config_port_with_equals_before_positionals() {
    let cli = Cli::try_parse_from(&["multiglass", "config", "--port=+65535", "u", "k"]).unwrap();
    let Command::Config { port, .. } = cli.command else {
        panic!("expected config command");
    };
    assert_eq!(port, Some(65535));
}

#[test]
fn config_port_out_of_range_is_invalid() {
    let err = Cli::try_parse_from(&["multiglass", "config", "u", "k", "--port", "65536"]).unwrap_err();
    assert!(matches!(err, CliError::InvalidValue { ref value, .. } if value == "65536"));
    assert_eq!(err.message(), "invalid value '65536' for '--port <PORT>': 65536 is not in 0..=65535");
}

#[test]
fn config_port_without_value() {
    let err = Cli::try_parse_from(&["multiglass", "config", "u", "k", "--port"]).unwrap_err();
    assert!(matches!(err, CliError::MissingValue(ref v) if v == "--port <PORT>"));
    assert_eq!(err.message(), "a value is required for '--port <PORT>' but none was supplied");
    let err = Cli::try_parse_from(&["multiglass", "config", "u", "k", "--port", "-1"]).unwrap_err();
    assert!(matches!(err, CliError::UnknownArgument(ref a) if a == "-1"));
    let err = Cli::try_parse_from(&["multiglass", "config", "u", "k", "--port", "--"]).unwrap_err();
    assert!(matches!(err, CliError::MissingValue(_)));
}

#[test]
fn config_port_twice_is_refused() {
    let err = Cli::try_parse_from(&["multiglass", "config", "u", "k", "--port", "1", "--port=2"])
        .unwrap_err();
    assert!(matches!(err, CliError::RepeatedArgument(ref v) if v == "--port <PORT>"));
    assert_eq!(err.message(), "the argument '--port <PORT>' cannot be used multiple times");
}

#[test]
fn config_missing_key() {
    let err = Cli::try_parse_from(&["multiglass", "config", "u"]).unwrap_err();
    assert!(matches!(err, CliError::MissingArguments(ref v) if v == &["<KEY>"]));
    let err = Cli::try_parse_from(&["multiglass", "config"]).unwrap_err();
    assert!(matches!(err, CliError::MissingArguments(ref v) if v == &["<UPSTREAM>", "<KEY>"]));
    assert_eq!(
        err.message(),
        "the following required arguments were not provided:\n  <UPSTREAM>\n  <KEY>"
    );
}

#[test]
fn simple_subcommands() {
    assert!(matches!(Cli::try_parse_from(&["m", "start"]).unwrap().command, Command::Start));
    assert!(matches!(Cli::try_parse_from(&["m", "stop"]).unwrap().command, Command::Stop));
    assert!(matches!(Cli::try_parse_from(&["m", "status"]).unwrap().command, Command::Status));
    assert!(matches!(
        Cli::try_parse_from(&["m", "__relay-server"]).unwrap().command,
        Command::RelayServer
    ));
}

#[test]
fn switch_takes_an_optional_slug() {
    let cli = Cli::try_parse_from(&["m", "switch"]).unwrap();
    assert!(matches!(cli.command, Command::Switch { slug: None }));
    let cli = Cli::try_parse_from(&["m", "switch", "-", ]).unwrap();
    assert!(matches!(cli.command, Command::Switch { slug: Some(ref s) } if s == "-"));
    let cli = Cli::try_parse_from(&["m", "switch", "--", "-odd"]).unwrap();
    assert!(matches!(cli.command, Command::Switch { slug: Some(ref s) } if s == "-odd"));
}

#[test]
fn unknown_things_are_refused() {
    assert!(matches!(Cli::try_parse_from(&["m"]).unwrap_err(), CliError::MissingSubcommand));
    assert!(matches!(
        Cli::try_parse_from(&["m", "launch"]).unwrap_err(),
        CliError::UnknownSubcommand(ref s) if s == "launch"
    ));
    assert!(matches!(
        Cli::try_parse_from(&["m", "--verbose"]).unwrap_err(),
        CliError::UnknownArgument(ref s) if s == "--verbose"
    ));
    assert!(matches!(
        Cli::try_parse_from(&["m", "start", "-xyz"]).unwrap_err(),
        CliError::UnknownArgument(ref s) if s == "-x"
    ));
    assert!(matches!(
        Cli::try_parse_from(&["m", "stream", "--bogus=1"]).unwrap_err(),
        CliError::UnknownArgument(ref s) if s == "--bogus"
    ));
    assert!(matches!(
        Cli::try_parse_from(&["m", "--", "stream"]).unwrap_err(),
        CliError::UnexpectedArgument(ref s) if s == "stream"
    ));
    assert!(matches!(
        Cli::try_parse_from(&["m", "stop", "now"]).unwrap_err(),
        CliError::UnexpectedArgument(ref s) if s == "now"
    ));
}

#[test]
fn help_is_recognised() {
    assert!(matches!(Cli::try_parse_from(&["m", "--help"]).unwrap_err(), CliError::Help(None)));
    assert!(matches!(Cli::try_parse_from(&["m", "-h"]).unwrap_err(), CliError::Help(None)));
    assert!(matches!(Cli::try_parse_from(&["m", "help"]).unwrap_err(), CliError::Help(None)));
    assert!(matches!(
        Cli::try_parse_from(&["m", "stream", "-h"]).unwrap_err(),
        CliError::Help(Some(Subcommand::Stream))
    ));
    assert!(matches!(
        Cli::try_parse_from(&["m", "help", "config"]).unwrap_err(),
        CliError::Help(Some(Subcommand::Config))
    ));
    assert!(matches!(
        Cli::try_parse_from(&["m", "help", "launch"]).unwrap_err(),
        CliError::UnknownSubcommand(ref s) if s == "launch"
    ));
    assert!(matches!(
        Cli::try_parse_from(&["m", "--help=x"]).unwrap_err(),
        CliError::UnexpectedValue { ref value, ref option } if value == "x" && option == "--help"
    ));
}

#[test]
fn port_value_reasons() {
    let reason = |v: &str| match Cli::try_parse_from(&["m", "config", "u", "k", &format!("--port={v}")]) {
        Err(e) => e.message(),
        Ok(_) => String::from("ok"),
    };
    assert_eq!(reason("x"), "invalid value 'x' for '--port <PORT>': invalid digit found in string");
    assert_eq!(reason(""), "invalid value '' for '--port <PORT>': cannot parse integer from empty string");
    assert_eq!(reason("-5"), "invalid value '-5' for '--port <PORT>': -5 is not in 0..=65535");
    assert_eq!(reason("+"), "invalid value '+' for '--port <PORT>': invalid digit found in string");
    assert_eq!(
        reason("99999999999999999999"),
        "invalid value '99999999999999999999' for '--port <PORT>': number too large to fit in target type"
    );
    assert_eq!(
        reason("-99999999999999999999"),
        "invalid value '-99999999999999999999' for '--port <PORT>': number too small to fit in target type"
    );
    assert_eq!(reason("12x"), "invalid value '12x' for '--port <PORT>': invalid digit found in string");
    assert_eq!(reason("-0"), "ok");
    assert_eq!(reason("+0080"), "ok");
}

#[test]
fn bad_port_is_reported_when_the_next_argument_is_read() {
    let err = Cli::try_parse_from(&["m", "config", "--port", "x", "u", "k"]).unwrap_err();
    assert!(matches!(err, CliError::InvalidValue { ref value, .. } if value == "x"));
    let err = Cli::try_parse_from(&["m", "config", "--port", "x", "--bogus"]).unwrap_err();
    assert!(matches!(err, CliError::UnknownArgument(ref a) if a == "--bogus"));
    let err = Cli::try_parse_from(&["m", "config", "u", "k", "--port", "1", "--port"]).unwrap_err();
    assert!(matches!(err, CliError::MissingValue(_)));
}

#[test]
fn error_messages() {
    assert_eq!(Cli::try_parse_from(&["m"]).unwrap_err().message(), "");
    assert_eq!(
        Cli::try_parse_from(&["m", "launch"]).unwrap_err().message(),
        "unrecognized subcommand 'launch'"
    );
    assert_eq!(
        Cli::try_parse_from(&["m", "config", "u"]).unwrap_err().message(),
        "the following required arguments were not provided:\n  <KEY>"
    );
    assert_eq!(
        Cli::try_parse_from(&["m", "config", "u", "k", "--port", "x"]).unwrap_err().message(),
        "invalid value 'x' for '--port <PORT>': invalid digit found in string"
    );
    assert_eq!(CliError::Help(None).message(), "");
}
