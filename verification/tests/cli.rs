use wolfie::cli::{
    effective_args, kernel_connection, normalized_args, Args, ArgsError, CliError,
    CommandConfig, EffectiveArgs, KernelConnection, LinkProtocol, ParsedArgs, ScriptInvocation,
    UserConfig,
};

fn parsed(args: Args) -> ParsedArgs {
    ParsedArgs {
        args,
        direct_script: false,
    }
}

fn effective(args: Args) -> EffectiveArgs {
    effective_args(parsed(args), UserConfig::default())
        .expect("args should merge with empty config")
}

fn effective_with_config(args: Args, config: UserConfig) -> EffectiveArgs {
    effective_args(parsed(args), config).expect("args should merge with config")
}

fn connection(args: &EffectiveArgs) -> Result<KernelConnection, CliError> {
    kernel_connection(args, None)
}

fn os_strings(values: &[&str]) -> Vec<String> {
    values.iter().map(|v| v.to_string()).collect()
}

fn try_parse(values: &[&str]) -> Result<Args, ArgsError> {
    Args::try_parse_from(os_strings(values))
}

#[test]
fn parses_file_flag_and_script_args() {
    let args = try_parse(&["wolfie", "--file", "script.wl", "--", "first", "--second"])
        .expect("file args should parse");
    let args = effective(args);

    assert_eq!(args.file.as_deref(), Some("script.wl"));
    assert_eq!(args.script_args, os_strings(&["first", "--second"]));
    assert_eq!(args.script_invocation, ScriptInvocation::File);
}

#[test]
fn parses_short_file_flag() {
    let args = try_parse(&["wolfie", "-f", "script.wl"]).expect("short file args should parse");
    let args = effective(args);

    assert_eq!(args.file.as_deref(), Some("script.wl"));
}

#[test]
fn normalizes_direct_script_invocation_for_shebang() {
    let normalized = normalized_args(os_strings(&["wolfie", "script.wl", "a", "--b"]));

    assert_eq!(
        normalized.args,
        os_strings(&["wolfie", "--file", "script.wl", "--", "a", "--b"])
    );
    assert!(normalized.direct_script);
}

#[test]
fn direct_script_invocation_reaches_effective_args() {
    let normalized = normalized_args(os_strings(&["wolfie", "script.wl", "a", "--b"]));
    let args = Args::try_parse_from(normalized.args).expect("normalized args should parse");
    let args = effective_args(
        ParsedArgs {
            args,
            direct_script: normalized.direct_script,
        },
        UserConfig::default(),
    )
    .expect("direct script args should be effective");

    assert_eq!(args.file.as_deref(), Some("script.wl"));
    assert_eq!(args.script_args, os_strings(&["a", "--b"]));
    assert_eq!(args.script_invocation, ScriptInvocation::Direct);
}

#[test]
fn normalizes_direct_script_invocation_after_options() {
    let normalized = normalized_args(os_strings(&["wolfie", "--no-color", "script.wl"]));

    assert_eq!(
        normalized.args,
        os_strings(&["wolfie", "--no-color", "--file", "script.wl"])
    );
    assert!(normalized.direct_script);
}

#[test]
fn normalizes_direct_script_invocation_with_explicit_separator() {
    let normalized = normalized_args(os_strings(&["wolfie", "script.wl", "--", "a"]));

    assert_eq!(
        normalized.args,
        os_strings(&["wolfie", "--file", "script.wl", "--", "a"])
    );
    assert!(normalized.direct_script);
}

#[test]
fn does_not_normalize_option_invocation_as_script() {
    let normalized = normalized_args(os_strings(&["wolfie", "--eval", "2 + 2"]));

    assert_eq!(normalized.args, os_strings(&["wolfie", "--eval", "2 + 2"]));
    assert!(!normalized.direct_script);
}

#[test]
fn parses_linkconnect_linkname_as_connected_kernel() {
    let args = try_parse(&["wolfie", "--linkconnect", "--linkname", "test-link"])
        .expect("linkconnect args should parse");

    let args = effective(args);
    let connection = connection(&args).expect("linkconnect args should be valid");

    match connection {
        KernelConnection::Connect {
            link_name,
            link_protocol,
            ..
        } => {
            assert_eq!(link_name, "test-link");
            assert_eq!(link_protocol, LinkProtocol::SharedMemory);
        }
        KernelConnection::Launch { .. } => panic!("expected connected kernel mode"),
    }
}

#[test]
fn parses_custom_linkprotocol_for_connected_kernel() {
    let args = try_parse(&[
        "wolfie",
        "--linkconnect",
        "--linkname",
        "test-link",
        "--linkprotocol",
        "TCPIP",
    ])
    .expect("linkconnect args should parse");

    let args = effective(args);
    let connection = connection(&args).expect("linkconnect args should be valid");

    match connection {
        KernelConnection::Connect { link_protocol, .. } => {
            assert_eq!(link_protocol, LinkProtocol::TCPIP);
        }
        KernelConnection::Launch { .. } => panic!("expected connected kernel mode"),
    }
}

#[test]
fn rejects_unknown_linkprotocol() {
    let err = try_parse(&[
        "wolfie",
        "--linkconnect",
        "--linkname",
        "test-link",
        "--linkprotocol",
        "Bogus",
    ])
    .expect_err("unknown linkprotocol should be rejected");

    assert!(err.message().contains("unsupported WSTP link protocol"));
}

#[test]
fn rejects_linkconnect_without_linkname() {
    let args = try_parse(&["wolfie", "--linkconnect"])
        .expect("linkconnect without linkname should parse before validation");

    let args = effective(args);
    let err = connection(&args).expect_err("linkconnect should require linkname");

    assert!(err.message().contains("--linkconnect requires --linkname"));
}

#[test]
fn parses_linkoptions_as_launched_kernel_options() {
    let args = try_parse(&["wolfie", "--linkoptions", "4"]).expect("linkoptions should parse");

    let args = effective(args);
    let connection = connection(&args).expect("linkoptions should be valid");

    match connection {
        KernelConnection::Launch { link_options, .. } => {
            assert_eq!(link_options, Some(4));
        }
        KernelConnection::Connect { .. } => panic!("expected launched kernel mode"),
    }
}

#[test]
fn parses_linkmode_as_launched_kernel_option() {
    let args = try_parse(&["wolfie", "--linkmode", "Listen"]).expect("linkmode should parse");

    let args = effective(args);
    let connection = connection(&args).expect("linkmode should be valid");

    match connection {
        KernelConnection::Launch { link_mode, .. } => {
            assert_eq!(link_mode.as_deref(), Some("Listen"));
        }
        KernelConnection::Connect { .. } => panic!("expected launched kernel mode"),
    }
}

#[test]
fn parses_linkoptions_and_linkmode_with_linkconnect() {
    let args = try_parse(&[
        "wolfie",
        "--linkconnect",
        "--linkname",
        "test-link",
        "--linkoptions",
        "4",
        "--linkmode",
        "Connect",
    ])
    .expect("linkoptions should parse before validation");

    let args = effective(args);
    let connection = connection(&args).expect("linkoptions should apply to connected links");

    match connection {
        KernelConnection::Connect {
            link_options,
            link_mode,
            ..
        } => {
            assert_eq!(link_options, Some(4));
            assert_eq!(link_mode.as_deref(), Some("Connect"));
        }
        KernelConnection::Launch { .. } => panic!("expected connected kernel mode"),
    }
}

#[test]
fn parses_linkinit_for_linkoption_four_connected_kernel() {
    let args = try_parse(&[
        "wolfie",
        "--linkconnect",
        "--linkname",
        "test-link",
        "--linkoptions",
        "4",
        "--linkinit",
    ])
    .expect("linkinit args should parse");

    let args = effective(args);
    let launch_directory = String::from("/tmp/wolfie-launch-dir");
    let connection = kernel_connection(&args, Some(launch_directory.clone()))
        .expect("linkinit args should be valid");

    match connection {
        KernelConnection::Connect {
            link_init_directory,
            ..
        } => {
            assert_eq!(link_init_directory, Some(launch_directory));
        }
        KernelConnection::Launch { .. } => panic!("expected connected kernel mode"),
    }
}

#[test]
fn rejects_linkinit_without_linkoption_four() {
    let args = try_parse(&[
        "wolfie",
        "--linkconnect",
        "--linkname",
        "test-link",
        "--linkinit",
    ])
    .expect("linkinit should parse before validation");

    let err = effective_args(parsed(args), UserConfig::default())
        .expect_err("linkinit should require linkoptions 4");

    assert!(err.message().contains("--linkinit requires --linkoptions 4"));
}

#[test]
fn rejects_linkinit_without_linkconnect() {
    let args = try_parse(&["wolfie", "--linkoptions", "4", "--linkinit"])
        .expect("linkinit should parse before validation");

    let err = effective_args(parsed(args), UserConfig::default())
        .expect_err("linkinit should require linkconnect");

    assert!(err.message().contains("--linkinit requires --linkconnect"));
}

#[test]
fn applies_config_defaults_when_cli_options_are_absent() {
    let args = try_parse(&["wolfie"]).expect("empty args should parse");
    let args = effective_with_config(
        args,
        UserConfig {
            command: CommandConfig {
                no_frontend: Some(true),
                no_color: Some(true),
                linkconnect: Some(true),
                linkname: Some("config-link".to_string()),
                linkprotocol: Some("TCPIP".to_string()),
                ..CommandConfig::default()
            },
        },
    );

    assert!(args.no_frontend);
    assert!(args.no_color);
    let connection = connection(&args).expect("config defaults should be valid");

    match connection {
        KernelConnection::Connect {
            link_name,
            link_protocol,
            ..
        } => {
            assert_eq!(link_name, "config-link");
            assert_eq!(link_protocol, LinkProtocol::TCPIP);
        }
        KernelConnection::Launch { .. } => panic!("expected connected kernel mode"),
    }
}

#[test]
fn applies_config_linkoptions_to_launched_kernel() {
    let args = try_parse(&["wolfie"]).expect("empty args should parse");
    let args = effective_with_config(
        args,
        UserConfig {
            command: CommandConfig {
                linkoptions: Some(4),
                linkmode: Some("Listen".to_string()),
                ..CommandConfig::default()
            },
        },
    );

    let connection = connection(&args).expect("config linkoptions should be valid");

    match connection {
        KernelConnection::Launch {
            link_options,
            link_mode,
        } => {
            assert_eq!(link_options, Some(4));
            assert_eq!(link_mode.as_deref(), Some("Listen"));
        }
        KernelConnection::Connect { .. } => panic!("expected launched kernel mode"),
    }
}

#[test]
fn cli_linkprotocol_overrides_config_default() {
    let args = try_parse(&[
        "wolfie",
        "--linkconnect",
        "--linkname",
        "cli-link",
        "--linkprotocol",
        "TCPIP",
    ])
    .expect("linkconnect args should parse");
    let args = effective_with_config(
        args,
        UserConfig {
            command: CommandConfig {
                linkprotocol: Some("SharedMemory".to_string()),
                ..CommandConfig::default()
            },
        },
    );

    let connection = connection(&args).expect("linkconnect args should be valid");

    match connection {
        KernelConnection::Connect { link_protocol, .. } => {
            assert_eq!(link_protocol, LinkProtocol::TCPIP);
        }
        KernelConnection::Launch { .. } => panic!("expected connected kernel mode"),
    }
}

#[test]
fn rejects_invalid_config_linkprotocol() {
    let args = try_parse(&["wolfie"]).expect("empty args should parse");
    let err = effective_args(
        parsed(args),
        UserConfig {
            command: CommandConfig {
                linkconnect: Some(true),
                linkname: Some("config-link".to_string()),
                linkprotocol: Some("Bogus".to_string()),
                ..CommandConfig::default()
            },
        },
    )
    .expect_err("invalid config linkprotocol should be rejected");

    assert!(err.message().contains("unsupported WSTP link protocol"));
}
