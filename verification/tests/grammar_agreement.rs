//! The command-line grammar read two ways: by the library, and by clap's builder with the same
//! options. Both must accept and refuse the same command lines, with the same values.

use std::path::PathBuf;

use clap::builder::{PathBufValueParser, RangedI64ValueParser, StringValueParser};
use clap::error::ErrorKind;
use clap::{Arg, ArgAction, ColorChoice, Command};
use wolfie::cli::{parse_link_protocol, Args, ArgsError, CliOption, LinkProtocol};

fn command() -> Command {
    Command::new("wolfie")
        .about("A friendlier CLI interface for the Wolfram Kernel")
        .color(ColorChoice::Never)
        .arg(
            Arg::new("no_frontend")
                .long("no-frontend")
                .help("Disable Wolfram FrontEnd-backed completions and rendering support")
                .action(ArgAction::SetTrue),
        )
        .arg(
            Arg::new("no_color")
                .long("no-color")
                .help("Disable ANSI coloring")
                .action(ArgAction::SetTrue),
        )
        .arg(
            Arg::new("eval")
                .short('e')
                .long("eval")
                .value_name("EVAL")
                .help("Evaluate a Wolfram Language expression and exit")
                .action(ArgAction::Set),
        )
        .arg(
            Arg::new("link_connect")
                .long("linkconnect")
                .help("Connect to an existing WSTP link instead of launching a new kernel")
                .action(ArgAction::SetTrue),
        )
        .arg(
            Arg::new("link_name")
                .long("linkname")
                .value_name("name")
                .help("WSTP link name to use with --linkconnect")
                .action(ArgAction::Set),
        )
        .arg(
            Arg::new("link_protocol")
                .long("linkprotocol")
                .value_name("protocol")
                .help("WSTP link protocol to use with --linkconnect")
                .action(ArgAction::Set)
                .value_parser(|s: &str| parse_link_protocol(s)),
        )
        .arg(
            Arg::new("link_options")
                .long("linkoptions")
                .value_name("val")
                .help(
                    "WSTP link options integer to use when launching or connecting to a Wolfram Kernel",
                )
                .action(ArgAction::Set)
                .value_parser(RangedI64ValueParser::<u32>::new().range(0..=4294967295)),
        )
        .arg(
            Arg::new("link_init")
                .long("linkinit")
                .help(
                    "Initialize a connected kernel by setting its directory to wolfie's launch directory",
                )
                .action(ArgAction::SetTrue),
        )
        .arg(
            Arg::new("link_mode")
                .long("linkmode")
                .value_name("mode")
                .help("WSTP link mode to use when launching or connecting to a Wolfram Kernel")
                .action(ArgAction::Set),
        )
        .arg(
            Arg::new("file")
                .short('f')
                .long("file")
                .value_name("file")
                .help("Execute a Wolfram Language script or package file and exit")
                .action(ArgAction::Set)
                .value_parser(PathBufValueParser::new()),
        )
        .arg(
            Arg::new("script_args")
                .value_name("SCRIPT_ARGS")
                .help("Arguments passed to the script file")
                .last(true)
                .num_args(1..)
                .action(ArgAction::Append)
                .value_parser(StringValueParser::new()),
        )
}

fn same_kind(ours: &ArgsError, theirs: ErrorKind) -> bool {
    match ours {
        ArgsError::UnknownArgument(_, _) => theirs == ErrorKind::UnknownArgument,
        ArgsError::MissingValue(_) => theirs == ErrorKind::InvalidValue,
        ArgsError::Repeated(_) => theirs == ErrorKind::ArgumentConflict,
        ArgsError::UnexpectedValue(_, _, _) => theirs == ErrorKind::TooManyValues,
        ArgsError::InvalidValue(_, _, _) => {
            theirs == ErrorKind::ValueValidation || theirs == ErrorKind::InvalidValue
        }
        ArgsError::HelpRequested => theirs == ErrorKind::DisplayHelp,
    }
}

fn agree(argv: &[&str]) {
    agree_with_similar(argv, None);
}

/// `similar` is the option that clap finds close to an unknown long option, if any.
fn agree_with_similar(argv: &[&str], similar: Option<CliOption>) {
    let ours = Args::try_parse_from(argv.iter().map(|s| s.to_string()).collect());
    let theirs = command().try_get_matches_from(argv.iter().copied());
    match (ours, theirs) {
        (Ok(a), Ok(m)) => {
            assert_eq!(a.no_frontend, m.get_flag("no_frontend"), "{argv:?}");
            assert_eq!(a.no_color, m.get_flag("no_color"), "{argv:?}");
            assert_eq!(a.link_connect, m.get_flag("link_connect"), "{argv:?}");
            assert_eq!(a.link_init, m.get_flag("link_init"), "{argv:?}");
            assert_eq!(a.eval, m.get_one::<String>("eval").cloned(), "{argv:?}");
            assert_eq!(a.link_name, m.get_one::<String>("link_name").cloned(), "{argv:?}");
            assert_eq!(a.link_mode, m.get_one::<String>("link_mode").cloned(), "{argv:?}");
            assert_eq!(
                a.link_protocol,
                m.get_one::<LinkProtocol>("link_protocol").copied(),
                "{argv:?}"
            );
            assert_eq!(a.link_options, m.get_one::<u32>("link_options").copied(), "{argv:?}");
            assert_eq!(
                a.file.map(PathBuf::from),
                m.get_one::<PathBuf>("file").cloned(),
                "{argv:?}"
            );
            let script_args: Vec<String> = m
                .get_many::<String>("script_args")
                .map(|v| v.cloned().collect())
                .unwrap_or_default();
            assert_eq!(a.script_args, script_args, "{argv:?}");
        }
        (Err(e), Err(c)) => {
            assert!(same_kind(&e, c.kind()), "{argv:?}: {e:?} vs {:?}", c.kind());
            assert_eq!(e.message_with_similar(similar), c.to_string(), "{argv:?}");
        }
        (Ok(a), Err(c)) => panic!("{argv:?}: accepted as {a:?}, clap refused: {c}"),
        (Err(e), Ok(_)) => panic!("{argv:?}: refused with {e:?}, clap accepted"),
    }
}

#[test]
fn grammar_agrees_on_accepted_lines() {
    let lines: &[&[&str]] = &[
        &["wolfie"],
        &["wolfie", "--no-frontend", "--no-color"],
        &["wolfie", "-e", "Range[5]^2"],
        &["wolfie", "--eval=1+1"],
        &["wolfie", "--eval="],
        &["wolfie", "-eRange[3]"],
        &["wolfie", "-e=x"],
        &["wolfie", "-e", "-"],
        &["wolfie", "--linkconnect", "--linkname", "l", "--linkprotocol", "tcpip"],
        &["wolfie", "--linkprotocol=SharedMemory", "--linkconnect"],
        &["wolfie", "--linkoptions", "4", "--linkinit", "--linkmode", "Listen"],
        &["wolfie", "--linkoptions", "+4"],
        &["wolfie", "--linkoptions=-0"],
        &["wolfie", "--file", "script.wl", "--", "first", "--second"],
        &["wolfie", "-f", "s.wl", "--", "--", "x", "-e"],
        &["wolfie", "-fs.wl"],
        &["wolfie", "--"],
        &["wolfie", "--", ""],
        &["wolfie", "--linkname", "", "--linkconnect"],
        &["wolfie", "--linkname=a=b", "--linkconnect"],
        &["wolfie", "-e", "x", "--", "a"],
        &["wolfie", "-f=a.wl"],
        &["wolfie", "--linkmode", "Connect", "--no-color", "--", "-h"],
    ];
    for line in lines {
        agree(line);
    }
}

#[test]
fn grammar_agrees_on_refused_lines() {
    let lines: &[&[&str]] = &[
        &["wolfie", "stray"],
        &["wolfie", "-"],
        &["wolfie", ""],
        &["wolfie", "--bogus"],
        &["wolfie", "--bogus=3"],
        &["wolfie", "-x"],
        &["wolfie", "-e"],
        &["wolfie", "--eval"],
        &["wolfie", "--eval", "--no-color"],
        &["wolfie", "-e", "--"],
        &["wolfie", "-e", "-1"],
        &["wolfie", "--no-color", "--no-color"],
        &["wolfie", "--eval", "a", "-e", "b"],
        &["wolfie", "--no-color=yes"],
        &["wolfie", "--no-color="],
        &["wolfie", "--linkprotocol", "Bogus"],
        &["wolfie", "--linkprotocol", "Bogus", "--zzz"],
        &["wolfie", "--linkoptions", "x4"],
        &["wolfie", "--linkoptions", ""],
        &["wolfie", "--linkoptions=-5"],
        &["wolfie", "--linkoptions", "4294967296"],
        &["wolfie", "--linkoptions", "99999999999999999999"],
        &["wolfie", "--file="],
        &["wolfie", "-f", ""],
        &["wolfie", "--file", "a", "stray"],
        &["wolfie", "--help"],
        &["wolfie", "-h"],
        &["wolfie", "--linkname", "x", "-h"],
        &["wolfie", "--linkname", "-h"],
        &["wolfie", "-fa.wl", "--file", "b.wl"],
        &["wolfie", "-h", "--bogus"],
        &["wolfie", "--bogus", "-h"],
        &["wolfie", "-ex", "--eval", "y"],
        &["wolfie", "--linkoptions", "4", "--linkoptions", "5"],
        &["wolfie", "--=x"],
        &["wolfie", "---x"],
        &["wolfie", "-\u{e9}"],
        &["wolfie", "--eval", "--"],
        &["wolfie", "--linkprotocol", "Bogus", "--", "a"],
    ];
    for line in lines {
        agree(line);
    }
}

#[test]
fn grammar_agrees_on_similar_long_options() {
    agree_with_similar(&["wolfie", "--evl", "x"], Some(CliOption::Eval));
    agree_with_similar(&["wolfie", "--no-colour"], Some(CliOption::NoColor));
    agree_with_similar(&["wolfie", "--linkinit", "--linknam=x"], Some(CliOption::LinkName));
    agree_with_similar(&["wolfie", "--eval", "x", "--evals"], Some(CliOption::Eval));
}

#[test]
fn grammar_agrees_on_options_named_before_an_error() {
    let lines: &[&[&str]] = &[
        &["wolfie", "--no-color", "-e", "x", "--bogus"],
        &["wolfie", "--linkname", "n", "--no-color=yes"],
        &["wolfie", "--no-color", "--no-color=yes"],
        &["wolfie", "-fa.wl", "--linkoptions", "3", "--zzz=1"],
        &["wolfie", "--eval", "--bogus"],
        &["wolfie", "--linkmode", "m", "-x"],
        &["wolfie", "--linkinit", "stray"],
        &["wolfie", "-e", "x", "--eval", "y", "--bogus"],
        &["wolfie", "--linkoptions", "x4", "--bogus"],
        &["wolfie", "--linkinit", "--linkname=n", "--linkmode", "m", "--no-color=1"],
        &["wolfie", "--linkmode=m", "--no-frontend", "--linkconnect", "--zzz"],
    ];
    for line in lines {
        agree(line);
    }
}
