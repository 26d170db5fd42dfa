use wolfie::cli::{
    direct_script_arg_index, effective_args, kernel_connection, normalized_args,
    parse_link_options, parse_link_protocol, select_run_mode, value_option_consumes_next_arg,
    Args, ArgsError, CliError, CliOption, CommandConfig, KernelConnection, LinkProtocol,
    ParsedArgs, RunMode, UserConfig, HELP_TEXT,
};

fn strings(values: &[&str]) -> Vec<String> {
    values.iter().map(|v| v.to_string()).collect()
}

fn parse(values: &[&str]) -> Result<Args, ArgsError> {
    Args::try_parse_from(strings(values))
}

#[test]
fn empty_command_line_gives_no_options() {
    let args = parse(&[]).unwrap();
    assert!(!args.no_frontend && !args.no_color && !args.link_connect && !args.link_init);
    assert!(args.eval.is_none() && args.file.is_none() && args.script_args.is_empty());
    let args = parse(&["wolfie"]).unwrap();
    assert!(args.eval.is_none() && args.link_protocol.is_none() && args.link_options.is_none());
}

#[test]
fn value_forms_are_accepted() {
    let args = parse(&["wolfie", "--eval=1+1"]).unwrap();
    assert_eq!(args.eval.as_deref(), Some("1+1"));
    let args = parse(&["wolfie", "-e", "Range[5]"]).unwrap();
    assert_eq!(args.eval.as_deref(), Some("Range[5]"));
    let args = parse(&["wolfie", "-eRange[3]"]).unwrap();
    assert_eq!(args.eval.as_deref(), Some("Range[3]"));
    let args = parse(&["wolfie", "-e=x"]).unwrap();
    assert_eq!(args.eval.as_deref(), Some("x"));
    let args = parse(&["wolfie", "--eval="]).unwrap();
    assert_eq!(args.eval.as_deref(), Some(""));
    let args = parse(&["wolfie", "--linkmode", "-"]).unwrap();
    assert_eq!(args.link_mode.as_deref(), Some("-"));
    let args = parse(&["wolfie", "-fs.wl"]).unwrap();
    assert_eq!(args.file.as_deref(), Some("s.wl"));
}

#[test]
fn flags_are_recorded() {
    let args = parse(&["wolfie", "--no-frontend", "--no-color", "--linkconnect", "--linkinit"])
        .unwrap();
    assert!(args.no_frontend && args.no_color && args.link_connect && args.link_init);
}

#[test]
fn separator_passes_everything_to_the_script() {
    let args = parse(&["wolfie", "--", "--eval", "--", "x"]).unwrap();
    assert_eq!(args.script_args, strings(&["--eval", "--", "x"]));
    assert!(args.eval.is_none());
}

#[test]
fn plain_argument_before_separator_is_refused() {
    let err = parse(&["wolfie", "stray"]).unwrap_err();
    assert_eq!(
        err.message(),
        "error: unexpected argument 'stray' found\n\n\
         Usage: wolfie [OPTIONS] [-- <SCRIPT_ARGS>...]\n\n\
         For more information, try '--help'.\n"
    );
}

#[test]
fn unknown_options_are_refused() {
    let err = parse(&["wolfie", "--bogus=1"]).unwrap_err();
    assert_eq!(
        err.message(),
        "error: unexpected argument '--bogus' found\n\n\
         \x20 tip: to pass '--bogus' as a value, use '-- --bogus'\n\n\
         Usage: wolfie [OPTIONS] [-- <SCRIPT_ARGS>...]\n\n\
         For more information, try '--help'.\n"
    );
    let err = parse(&["wolfie", "-x"]).unwrap_err();
    assert_eq!(
        err.message(),
        "error: unexpected argument '-x' found\n\n\
         \x20 tip: to pass '-x' as a value, use '-- -x'\n\n\
         Usage: wolfie [OPTIONS] [-- <SCRIPT_ARGS>...]\n\n\
         For more information, try '--help'.\n"
    );
}

#[test]
fn unknown_long_option_shows_the_options_named_before_it() {
    let err = parse(&["wolfie", "--no-color", "-e", "x", "--bogus"]).unwrap_err();
    assert!(matches!(
        &err,
        ArgsError::UnknownArgument(a, named)
            if a == "--bogus" && named == &vec![CliOption::NoColor, CliOption::Eval]
    ));
    assert_eq!(
        err.message(),
        "error: unexpected argument '--bogus' found\n\n\
         \x20 tip: to pass '--bogus' as a value, use '-- --bogus'\n\n\
         Usage: wolfie --no-color --eval <EVAL> [-- <SCRIPT_ARGS>...]\n\n\
         For more information, try '--help'.\n"
    );
    assert_eq!(
        err.message_with_similar(Some(CliOption::LinkName)),
        "error: unexpected argument '--bogus' found\n\n\
         \x20 tip: a similar argument exists: '--linkname'\n\
         \x20 tip: to pass '--bogus' as a value, use '-- --bogus'\n\n\
         Usage: wolfie --no-color --eval <EVAL> --linkname <name> [-- <SCRIPT_ARGS>...]\n\n\
         For more information, try '--help'.\n"
    );
}

#[test]
fn missing_value_is_refused() {
    let err = parse(&["wolfie", "--eval"]).unwrap_err();
    assert_eq!(
        err.message(),
        "error: a value is required for '--eval <EVAL>' but none was supplied\n\n\
         For more information, try '--help'.\n"
    );
    let err = parse(&["wolfie", "--linkname", "--no-color"]).unwrap_err();
    assert!(matches!(err, ArgsError::MissingValue(CliOption::LinkName)));
    let err = parse(&["wolfie", "-e", "--"]).unwrap_err();
    assert!(matches!(err, ArgsError::MissingValue(CliOption::Eval)));
}

#[test]
fn repeated_option_is_refused() {
    let err = parse(&["wolfie", "--no-color", "--no-color"]).unwrap_err();
    assert_eq!(
        err.message(),
        "error: the argument '--no-color' cannot be used multiple times\n\n\
         Usage: wolfie [OPTIONS] [-- <SCRIPT_ARGS>...]\n\n\
         For more information, try '--help'.\n"
    );
    let err = parse(&["wolfie", "-e", "1", "--eval", "2"]).unwrap_err();
    assert!(matches!(err, ArgsError::Repeated(CliOption::Eval)));
}

#[test]
fn flag_with_value_is_refused() {
    let err = parse(&["wolfie", "--no-color=yes"]).unwrap_err();
    assert_eq!(
        err.message(),
        "error: unexpected value 'yes' for '--no-color' found; no more were expected\n\n\
         Usage: wolfie --no-color [-- <SCRIPT_ARGS>...]\n\n\
         For more information, try '--help'.\n"
    );
    // The value of `--linkname` is still waiting to be settled, so the option is not counted.
    let err = parse(&["wolfie", "--linkname", "n", "--no-color=yes"]).unwrap_err();
    assert_eq!(
        err.message(),
        "error: unexpected value 'yes' for '--no-color' found; no more were expected\n\n\
         Usage: wolfie --no-color [-- <SCRIPT_ARGS>...]\n\n\
         For more information, try '--help'.\n"
    );
}

#[test]
fn help_is_requested() {
    let err = parse(&["wolfie", "--help"]).unwrap_err();
    assert!(matches!(err, ArgsError::HelpRequested));
    assert_eq!(err.message(), HELP_TEXT);
    let err = parse(&["wolfie", "-h"]).unwrap_err();
    assert!(matches!(err, ArgsError::HelpRequested));
}

#[test]
fn linkoptions_values_are_checked() {
    assert_eq!(parse(&["wolfie", "--linkoptions", "+7"]).unwrap().link_options, Some(7));
    assert_eq!(parse(&["wolfie", "--linkoptions=-0"]).unwrap().link_options, Some(0));
    assert_eq!(
        parse(&["wolfie", "--linkoptions", "4294967295"]).unwrap().link_options,
        Some(4294967295)
    );
    let err = parse(&["wolfie", "--linkoptions", "x4"]).unwrap_err();
    assert_eq!(
        err.message(),
        "error: invalid value 'x4' for '--linkoptions <val>': invalid digit found in string\n\n\
         For more information, try '--help'.\n"
    );
    let err = parse(&["wolfie", "--linkoptions=-5"]).unwrap_err();
    assert_eq!(
        err.message(),
        "error: invalid value '-5' for '--linkoptions <val>': -5 is not in 0..=4294967295\n\n\
         For more information, try '--help'.\n"
    );
}

#[test]
fn link_options_follow_integer_reading() {
    assert_eq!(parse_link_options("12"), Ok(12));
    assert_eq!(
        parse_link_options(""),
        Err("cannot parse integer from empty string".to_string())
    );
    assert_eq!(parse_link_options("+"), Err("invalid digit found in string".to_string()));
    assert_eq!(
        parse_link_options("4294967296"),
        Err("4294967296 is not in 0..=4294967295".to_string())
    );
    assert_eq!(
        parse_link_options("99999999999999999999"),
        Err("number too large to fit in target type".to_string())
    );
    assert_eq!(
        parse_link_options("-99999999999999999999"),
        Err("number too small to fit in target type".to_string())
    );
    assert_eq!(
        parse_link_options("-9223372036854775808"),
        Err("-9223372036854775808 is not in 0..=4294967295".to_string())
    );
}

#[test]
fn link_protocol_names_ignore_case() {
    assert_eq!(parse_link_protocol("tcpip"), Ok(LinkProtocol::TCPIP));
    assert_eq!(parse_link_protocol("IntraProcess"), Ok(LinkProtocol::IntraProcess));
    assert_eq!(parse_link_protocol("SHAREDMEMORY"), Ok(LinkProtocol::SharedMemory));
    assert_eq!(
        parse_link_protocol("Bogus"),
        Err("unsupported WSTP link protocol \"Bogus\"; expected IntraProcess, SharedMemory, or TCPIP"
            .to_string())
    );
}

#[test]
fn options_that_consume_the_next_argument() {
    for arg in ["-e", "--eval", "--linkname", "--linkprotocol", "--linkoptions", "--linkmode"] {
        assert!(value_option_consumes_next_arg(arg));
    }
    for arg in ["-f", "--file", "--eval=1", "--no-color", "x"] {
        assert!(!value_option_consumes_next_arg(arg));
    }
}

#[test]
fn direct_script_is_found_after_option_values() {
    assert_eq!(direct_script_arg_index(&strings(&["wolfie", "--eval", "x", "s.wl"])), Some(3));
    assert_eq!(direct_script_arg_index(&strings(&["wolfie", "-f", "s.wl"])), None);
    assert_eq!(direct_script_arg_index(&strings(&["wolfie", "--file=s.wl", "t.wl"])), None);
    assert_eq!(direct_script_arg_index(&strings(&["wolfie", "--eval"])), None);
    assert_eq!(direct_script_arg_index(&strings(&["wolfie", "--no-color"])), None);
}

#[test]
fn script_without_arguments_is_normalized_without_separator() {
    let normalized = normalized_args(strings(&["wolfie", "s.wl"]));
    assert_eq!(normalized.args, strings(&["wolfie", "--file", "s.wl"]));
    let args = Args::try_parse_from(normalized.args).unwrap();
    assert_eq!(args.file.as_deref(), Some("s.wl"));
    assert!(args.script_args.is_empty());
}

#[test]
fn link_settings_need_linkconnect() {
    let args = parse(&["wolfie", "--linkname", "x"]).unwrap();
    let err = effective_args(ParsedArgs { args, direct_script: false }, UserConfig::default())
        .unwrap_err();
    assert_eq!(err.message(), "--linkname requires --linkconnect");
    let args = parse(&["wolfie", "--linkprotocol", "TCPIP"]).unwrap();
    let err = effective_args(ParsedArgs { args, direct_script: false }, UserConfig::default())
        .unwrap_err();
    assert!(matches!(err, CliError::LinkProtocolRequiresLinkConnect));
}

#[test]
fn config_link_name_is_ignored_without_linkconnect() {
    let args = parse(&["wolfie"]).unwrap();
    let config = UserConfig {
        command: CommandConfig {
            linkname: Some("config-link".to_string()),
            linkprotocol: Some("Bogus".to_string()),
            ..CommandConfig::default()
        },
    };
    let effective = effective_args(ParsedArgs { args, direct_script: false }, config).unwrap();
    assert!(effective.link_name.is_none());
    assert_eq!(effective.link_protocol, LinkProtocol::SharedMemory);
    match kernel_connection(&effective, None).unwrap() {
        KernelConnection::Launch { link_options, link_mode } => {
            assert_eq!(link_options, None);
            assert_eq!(link_mode, None);
        }
        KernelConnection::Connect { .. } => panic!("expected launched kernel mode"),
    }
}

#[test]
fn run_mode_is_chosen_from_eval_and_file() {
    assert!(matches!(select_run_mode(Some("1".into()), None), Ok(RunMode::Evaluate(e)) if e == "1"));
    assert!(matches!(select_run_mode(None, Some("f".into())), Ok(RunMode::RunFile(f)) if f == "f"));
    assert!(matches!(select_run_mode(None, None), Ok(RunMode::Repl)));
    let err = select_run_mode(Some("1".into()), Some("f".into())).unwrap_err();
    assert_eq!(err.message(), "use either --eval or a file, not both");
}

#[test]
fn normalizing_twice_changes_nothing() {
    for line in [
        &["wolfie", "--no-color", "script.wl", "a", "--b"][..],
        &["wolfie", "-e", "1", "s.wl", "--", "x"][..],
        &["wolfie", "--eval", "2 + 2"][..],
        &["wolfie", "s.wl"][..],
    ] {
        let once = normalized_args(strings(line));
        let twice = normalized_args(once.args.clone());
        assert_eq!(twice.args, once.args, "{line:?}");
        assert!(!twice.direct_script, "{line:?}");
    }
}
