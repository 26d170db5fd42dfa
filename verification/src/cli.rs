//! The command line of `wolfie`: its grammar, the merge with the user's configuration,
//! and the choice of kernel connection.

use vstd::prelude::*;
use crate::native_wstp;
use crate::native_wstp::debug_text;
use crate::text;
use crate::text::{
    chars_eq_str, chars_of, push_char, push_decimal_i64, slice_from, slice_range, string_of,
    to_ascii_lowercase,
};

verus! {

/// The WSTP link protocols that `--linkprotocol` accepts.
#[derive(Clone, Copy, Debug, PartialEq, Eq, Structural)]
pub enum LinkProtocol {
    IntraProcess,
    SharedMemory,
    TCPIP,
}

/// The message for a link protocol name that is not recognised.
pub open spec fn unsupported_protocol_message(value: Seq<char>) -> Seq<char> {
    "unsupported WSTP link protocol "@ + native_wstp::debug_escaped(value)
        + "; expected IntraProcess, SharedMemory, or TCPIP"@
}

/// A link protocol name, compared without regard to ASCII case.
pub open spec fn link_protocol_of(value: Seq<char>) -> Result<LinkProtocol, Seq<char>> {
    let lower = text::ascii_lowercase(value);
    if lower == "intraprocess"@ {
        Ok(LinkProtocol::IntraProcess)
    } else if lower == "sharedmemory"@ {
        Ok(LinkProtocol::SharedMemory)
    } else if lower == "tcpip"@ {
        Ok(LinkProtocol::TCPIP)
    } else {
        Err(unsupported_protocol_message(value))
    }
}

/// The characters of a `Result` whose error is a `String`.
pub open spec fn text_result<T>(r: Result<T, String>) -> Result<T, Seq<char>> {
    match r {
        Ok(v) => Ok(v),
        Err(m) => Err(m@),
    }
}

/// Parses a WSTP link protocol name: `IntraProcess`, `SharedMemory` or `TCPIP`, in any ASCII case.
pub fn parse_link_protocol(value: &str) -> (r: Result<LinkProtocol, String>)
    ensures
        text_result(r) == link_protocol_of(value@),
{
    let chars = chars_of(value);
    let lower = to_ascii_lowercase(chars.as_slice());
    if chars_eq_str(lower.as_slice(), "intraprocess") {
        Ok(LinkProtocol::IntraProcess)
    } else if chars_eq_str(lower.as_slice(), "sharedmemory") {
        Ok(LinkProtocol::SharedMemory)
    } else if chars_eq_str(lower.as_slice(), "tcpip") {
        Ok(LinkProtocol::TCPIP)
    } else {
        let mut m = String::from_str("unsupported WSTP link protocol ");
        let shown = debug_text(value);
        m.append(shown.as_str());
        m.append("; expected IntraProcess, SharedMemory, or TCPIP");
        Err(m)
    }
}

/// Whether `c` is an ASCII decimal digit.
pub open spec fn is_digit(c: char) -> bool {
    '0' <= c && c <= '9'
}

/// Reads the digits `body` left to right as a 64-bit signed integer with the sign given by
/// `negative`, stopping at the first character that is not a digit or at the first overflow.
pub open spec fn scan_i64(body: Seq<char>, negative: bool) -> Result<int, Seq<char>>
    decreases body.len(),
{
    if body.len() == 0 {
        Ok(0)
    } else {
        match scan_i64(body.drop_last(), negative) {
            Err(e) => Err(e),
            Ok(acc) => {
                let c = body.last();
                if !is_digit(c) {
                    Err("invalid digit found in string"@)
                } else {
                    let d = (c as int) - 48;
                    let v = if negative { acc * 10 - d } else { acc * 10 + d };
                    if v > i64::MAX {
                        Err("number too large to fit in target type"@)
                    } else if v < i64::MIN {
                        Err("number too small to fit in target type"@)
                    } else {
                        Ok(v)
                    }
                }
            },
        }
    }
}

/// A decimal integer as std reads an `i64`: an optional `+` or `-` and at least one digit.
pub open spec fn parse_i64(s: Seq<char>) -> Result<int, Seq<char>> {
    if s.len() == 0 {
        Err("cannot parse integer from empty string"@)
    } else {
        let negative = s[0] == '-';
        let body = if s[0] == '-' || s[0] == '+' { s.drop_first() } else { s };
        if body.len() == 0 {
            Err("invalid digit found in string"@)
        } else {
            scan_i64(body, negative)
        }
    }
}

/// The value of `--linkoptions`: an `i64` numeral that must lie in `0..=4294967295`.
pub open spec fn link_options_of(s: Seq<char>) -> Result<u32, Seq<char>> {
    match parse_i64(s) {
        Err(e) => Err(e),
        Ok(v) => if 0 <= v <= u32::MAX {
            Ok(v as u32)
        } else {
            Err(text::decimal(v) + " is not in 0..=4294967295"@)
        },
    }
}

fn scan_digits(body: &[char], negative: bool) -> (r: Result<i64, String>)
    ensures
        match r {
            Ok(v) => scan_i64(body@, negative) == Ok::<int, Seq<char>>(v as int),
            Err(m) => scan_i64(body@, negative) == Err::<int, Seq<char>>(m@),
        },
{
    let mut acc: i64 = 0;
    let n = body.len();
    assert(body@.take(0).len() == 0);
    for i in 0..n
        invariant
            n == body@.len(),
            scan_i64(body@.take(i as int), negative) == Ok::<int, Seq<char>>(acc as int),
    {
        let c = body[i];
        assert(body@.take(i + 1).drop_last() == body@.take(i as int));
        assert(body@.take(i + 1).last() == c);
        if !('0' <= c && c <= '9') {
            proof {
                lemma_scan_error_persists(body@, (i + 1) as int, negative);
            }
            return Err(String::from_str("invalid digit found in string"));
        }
        let d: i128 = (c as u32 - 48) as i128;
        let v: i128 = if negative { (acc as i128) * 10 - d } else { (acc as i128) * 10 + d };
        if v > i64::MAX as i128 {
            proof {
                lemma_scan_error_persists(body@, (i + 1) as int, negative);
            }
            return Err(String::from_str("number too large to fit in target type"));
        }
        if v < i64::MIN as i128 {
            proof {
                lemma_scan_error_persists(body@, (i + 1) as int, negative);
            }
            return Err(String::from_str("number too small to fit in target type"));
        }
        acc = v as i64;
    }
    assert(body@.take(n as int) == body@);
    Ok(acc)
}

/// Once the scan of a prefix fails, the scan of the whole fails in the same way.
proof fn lemma_scan_error_persists(body: Seq<char>, k: int, negative: bool)
    requires
        0 <= k <= body.len(),
    ensures
        scan_i64(body.take(k), negative) is Err ==> scan_i64(body, negative) == scan_i64(
            body.take(k),
            negative,
        ),
    decreases body.len() - k,
{
    if k < body.len() && scan_i64(body.take(k), negative) is Err {
        assert(body.take(k + 1).drop_last() == body.take(k));
        lemma_scan_error_persists(body, k + 1, negative);
    }
    if k == body.len() {
        assert(body.take(k) == body);
    }
}

/// Reads the value of `--linkoptions`.
pub fn parse_link_options(value: &str) -> (r: Result<u32, String>)
    ensures
        text_result(r) == link_options_of(value@),
{
    let s = chars_of(value);
    if s.len() == 0 {
        return Err(String::from_str("cannot parse integer from empty string"));
    }
    let negative = s[0] == '-';
    let start: usize = if s[0] == '-' || s[0] == '+' { 1 } else { 0 };
    let body = slice_from(s.as_slice(), start);
    assert(body@ == (if s@[0] == '-' || s@[0] == '+' { s@.drop_first() } else { s@ }));
    if body.len() == 0 {
        return Err(String::from_str("invalid digit found in string"));
    }
    match scan_digits(body.as_slice(), negative) {
        Err(m) => Err(m),
        Ok(v) => {
            if 0 <= v && v <= u32::MAX as i64 {
                Ok(v as u32)
            } else {
                let mut m = String::new();
                push_decimal_i64(&mut m, v);
                m.append(" is not in 0..=4294967295");
                Err(m)
            }
        },
    }
}

} // verus!

verus! {

/// The options of the command line.
#[derive(Clone, Copy, Debug, PartialEq, Eq, Structural)]
pub enum CliOption {
    NoFrontend,
    NoColor,
    Eval,
    LinkConnect,
    LinkName,
    LinkProtocol,
    LinkOptions,
    LinkInit,
    LinkMode,
    File,
    Help,
}

/// The option named by a long flag, the text after `--` and before any `=`.
pub open spec fn long_option(name: Seq<char>) -> Option<CliOption> {
    if name == "no-frontend"@ {
        Some(CliOption::NoFrontend)
    } else if name == "no-color"@ {
        Some(CliOption::NoColor)
    } else if name == "eval"@ {
        Some(CliOption::Eval)
    } else if name == "linkconnect"@ {
        Some(CliOption::LinkConnect)
    } else if name == "linkname"@ {
        Some(CliOption::LinkName)
    } else if name == "linkprotocol"@ {
        Some(CliOption::LinkProtocol)
    } else if name == "linkoptions"@ {
        Some(CliOption::LinkOptions)
    } else if name == "linkinit"@ {
        Some(CliOption::LinkInit)
    } else if name == "linkmode"@ {
        Some(CliOption::LinkMode)
    } else if name == "file"@ {
        Some(CliOption::File)
    } else if name == "help"@ {
        Some(CliOption::Help)
    } else {
        None
    }
}

/// The option named by a short flag letter.
pub open spec fn short_option(c: char) -> Option<CliOption> {
    if c == 'e' {
        Some(CliOption::Eval)
    } else if c == 'f' {
        Some(CliOption::File)
    } else if c == 'h' {
        Some(CliOption::Help)
    } else {
        None
    }
}

/// Whether an option takes a value.
pub open spec fn takes_value(o: CliOption) -> bool {
    match o {
        CliOption::Eval | CliOption::LinkName | CliOption::LinkProtocol | CliOption::LinkOptions
        | CliOption::LinkMode | CliOption::File => true,
        _ => false,
    }
}

/// How an option is shown in messages.
pub open spec fn option_display(o: CliOption) -> Seq<char> {
    match o {
        CliOption::NoFrontend => "--no-frontend"@,
        CliOption::NoColor => "--no-color"@,
        CliOption::Eval => "--eval <EVAL>"@,
        CliOption::LinkConnect => "--linkconnect"@,
        CliOption::LinkName => "--linkname <name>"@,
        CliOption::LinkProtocol => "--linkprotocol <protocol>"@,
        CliOption::LinkOptions => "--linkoptions <val>"@,
        CliOption::LinkInit => "--linkinit"@,
        CliOption::LinkMode => "--linkmode <mode>"@,
        CliOption::File => "--file <file>"@,
        CliOption::Help => "--help"@,
    }
}

impl CliOption {
    /// Whether the option takes a value.
    pub fn takes_value(self) -> (r: bool)
        ensures
            r == takes_value(self),
    {
        match self {
            CliOption::Eval | CliOption::LinkName | CliOption::LinkProtocol
            | CliOption::LinkOptions | CliOption::LinkMode | CliOption::File => true,
            _ => false,
        }
    }

    /// How the option is shown in messages.
    pub fn display(self) -> (r: String)
        ensures
            r@ == option_display(self),
    {
        match self {
            CliOption::NoFrontend => String::from_str("--no-frontend"),
            CliOption::NoColor => String::from_str("--no-color"),
            CliOption::Eval => String::from_str("--eval <EVAL>"),
            CliOption::LinkConnect => String::from_str("--linkconnect"),
            CliOption::LinkName => String::from_str("--linkname <name>"),
            CliOption::LinkProtocol => String::from_str("--linkprotocol <protocol>"),
            CliOption::LinkOptions => String::from_str("--linkoptions <val>"),
            CliOption::LinkInit => String::from_str("--linkinit"),
            CliOption::LinkMode => String::from_str("--linkmode <mode>"),
            CliOption::File => String::from_str("--file <file>"),
            CliOption::Help => String::from_str("--help"),
        }
    }
}

/// The option named by a long flag.
pub fn lookup_long_option(name: &[char]) -> (r: Option<CliOption>)
    ensures
        r == long_option(name@),
{
    if chars_eq_str(name, "no-frontend") {
        Some(CliOption::NoFrontend)
    } else if chars_eq_str(name, "no-color") {
        Some(CliOption::NoColor)
    } else if chars_eq_str(name, "eval") {
        Some(CliOption::Eval)
    } else if chars_eq_str(name, "linkconnect") {
        Some(CliOption::LinkConnect)
    } else if chars_eq_str(name, "linkname") {
        Some(CliOption::LinkName)
    } else if chars_eq_str(name, "linkprotocol") {
        Some(CliOption::LinkProtocol)
    } else if chars_eq_str(name, "linkoptions") {
        Some(CliOption::LinkOptions)
    } else if chars_eq_str(name, "linkinit") {
        Some(CliOption::LinkInit)
    } else if chars_eq_str(name, "linkmode") {
        Some(CliOption::LinkMode)
    } else if chars_eq_str(name, "file") {
        Some(CliOption::File)
    } else if chars_eq_str(name, "help") {
        Some(CliOption::Help)
    } else {
        None
    }
}

/// The option named by a short flag letter.
pub fn lookup_short_option(c: char) -> (r: Option<CliOption>)
    ensures
        r == short_option(c),
{
    if c == 'e' {
        Some(CliOption::Eval)
    } else if c == 'f' {
        Some(CliOption::File)
    } else if c == 'h' {
        Some(CliOption::Help)
    } else {
        None
    }
}

/// The command line as it was given, before the user's configuration is merged in.
#[derive(Clone, Debug)]
pub struct Args {
    pub no_frontend: bool,
    pub no_color: bool,
    pub eval: Option<String>,
    pub link_connect: bool,
    pub link_name: Option<String>,
    pub link_protocol: Option<LinkProtocol>,
    pub link_options: Option<u32>,
    pub link_init: bool,
    pub link_mode: Option<String>,
    pub file: Option<String>,
    pub script_args: Vec<String>,
}

/// The mathematical model of [`Args`].
pub struct ArgsView {
    pub no_frontend: bool,
    pub no_color: bool,
    pub eval: Option<Seq<char>>,
    pub link_connect: bool,
    pub link_name: Option<Seq<char>>,
    pub link_protocol: Option<LinkProtocol>,
    pub link_options: Option<u32>,
    pub link_init: bool,
    pub link_mode: Option<Seq<char>>,
    pub file: Option<Seq<char>>,
    pub script_args: Seq<Seq<char>>,
}

impl View for Args {
    type V = ArgsView;

    open spec fn view(&self) -> ArgsView {
        ArgsView {
            no_frontend: self.no_frontend,
            no_color: self.no_color,
            eval: self.eval.deep_view(),
            link_connect: self.link_connect,
            link_name: self.link_name.deep_view(),
            link_protocol: self.link_protocol,
            link_options: self.link_options,
            link_init: self.link_init,
            link_mode: self.link_mode.deep_view(),
            file: self.file.deep_view(),
            script_args: self.script_args.deep_view(),
        }
    }
}

/// A command line with no option given.
pub open spec fn empty_args() -> ArgsView {
    ArgsView {
        no_frontend: false,
        no_color: false,
        eval: None,
        link_connect: false,
        link_name: None,
        link_protocol: None,
        link_options: None,
        link_init: false,
        link_mode: None,
        file: None,
        script_args: Seq::empty(),
    }
}

/// Why a command line is refused.
#[derive(Clone, Debug)]
pub enum ArgsError {
    /// An argument that names no option, or a plain argument before `--`, with the options
    /// named before it, in the order they were first named.
    UnknownArgument(String, Vec<CliOption>),
    /// An option that takes a value was not given one.
    MissingValue(CliOption),
    /// An option was given more than once.
    Repeated(CliOption),
    /// A flag was given a value with `=`, with the options named before it, in the order they
    /// were first named.
    UnexpectedValue(CliOption, String, Vec<CliOption>),
    /// A value was not accepted: the option, the value and the reason.
    InvalidValue(CliOption, String, String),
    /// `-h` or `--help` was given.
    HelpRequested,
}

/// The mathematical model of [`ArgsError`].
pub enum ArgsErrorView {
    UnknownArgument(Seq<char>, Seq<CliOption>),
    MissingValue(CliOption),
    Repeated(CliOption),
    UnexpectedValue(CliOption, Seq<char>, Seq<CliOption>),
    InvalidValue(CliOption, Seq<char>, Seq<char>),
    HelpRequested,
}

impl View for ArgsError {
    type V = ArgsErrorView;

    open spec fn view(&self) -> ArgsErrorView {
        match self {
            ArgsError::UnknownArgument(a, named) => ArgsErrorView::UnknownArgument(a@, named@),
            ArgsError::MissingValue(o) => ArgsErrorView::MissingValue(*o),
            ArgsError::Repeated(o) => ArgsErrorView::Repeated(*o),
            ArgsError::UnexpectedValue(o, v, named) => ArgsErrorView::UnexpectedValue(
                *o,
                v@,
                named@,
            ),
            ArgsError::InvalidValue(o, v, m) => ArgsErrorView::InvalidValue(*o, v@, m@),
            ArgsError::HelpRequested => ArgsErrorView::HelpRequested,
        }
    }
}

/// Whether option `o` has already been given.
pub open spec fn is_given(a: ArgsView, o: CliOption) -> bool {
    match o {
        CliOption::NoFrontend => a.no_frontend,
        CliOption::NoColor => a.no_color,
        CliOption::Eval => a.eval is Some,
        CliOption::LinkConnect => a.link_connect,
        CliOption::LinkName => a.link_name is Some,
        CliOption::LinkProtocol => a.link_protocol is Some,
        CliOption::LinkOptions => a.link_options is Some,
        CliOption::LinkInit => a.link_init,
        CliOption::LinkMode => a.link_mode is Some,
        CliOption::File => a.file is Some,
        CliOption::Help => false,
    }
}

/// Records value `v` for option `o`, which takes a value, reading it as the option requires;
/// a file name cannot be empty.
pub open spec fn store_value(a: ArgsView, o: CliOption, v: Seq<char>) -> Result<ArgsView, ArgsErrorView> {
    match o {
        CliOption::Eval => Ok(ArgsView { eval: Some(v), ..a }),
        CliOption::LinkName => Ok(ArgsView { link_name: Some(v), ..a }),
        CliOption::LinkMode => Ok(ArgsView { link_mode: Some(v), ..a }),
        CliOption::File => if v.len() == 0 {
            Err(ArgsErrorView::MissingValue(o))
        } else {
            Ok(ArgsView { file: Some(v), ..a })
        },
        CliOption::LinkProtocol => match link_protocol_of(v) {
            Ok(p) => Ok(ArgsView { link_protocol: Some(p), ..a }),
            Err(m) => Err(ArgsErrorView::InvalidValue(o, v, m)),
        },
        CliOption::LinkOptions => match link_options_of(v) {
            Ok(n) => Ok(ArgsView { link_options: Some(n), ..a }),
            Err(m) => Err(ArgsErrorView::InvalidValue(o, v, m)),
        },
        _ => Ok(a),
    }
}

/// Gives option `o` the value `v`; an option may be given only once.
pub open spec fn give_value(a: ArgsView, o: CliOption, v: Seq<char>) -> Result<ArgsView, ArgsErrorView> {
    if is_given(a, o) {
        Err(ArgsErrorView::Repeated(o))
    } else {
        store_value(a, o, v)
    }
}

/// Gives flag `o`; `--help` stops the parse, and a flag may be given only once.
pub open spec fn give_flag(a: ArgsView, o: CliOption) -> Result<ArgsView, ArgsErrorView> {
    if o == CliOption::Help {
        Err(ArgsErrorView::HelpRequested)
    } else if is_given(a, o) {
        Err(ArgsErrorView::Repeated(o))
    } else {
        match o {
            CliOption::NoFrontend => Ok(ArgsView { no_frontend: true, ..a }),
            CliOption::NoColor => Ok(ArgsView { no_color: true, ..a }),
            CliOption::LinkConnect => Ok(ArgsView { link_connect: true, ..a }),
            CliOption::LinkInit => Ok(ArgsView { link_init: true, ..a }),
            _ => Ok(a),
        }
    }
}

/// The state of a parse between two arguments: what was given, an option still waiting
/// to be settled (with its value once that has come), whether `--` was passed, and the
/// options given so far (a flag, or an option with its value), each once, in the order they
/// were given; an option that waits to be settled counts only once it is.
pub struct ParseModel {
    pub args: ArgsView,
    pub pending: Option<(CliOption, Option<Seq<char>>)>,
    pub trailing: bool,
    pub named: Seq<CliOption>,
}

/// The options `named`, with `o` added at the end unless it is already among them.
pub open spec fn with_option(named: Seq<CliOption>, o: CliOption) -> Seq<CliOption> {
    if named.contains(o) {
        named
    } else {
        named.push(o)
    }
}

/// The options `named` without `o`.
pub open spec fn without_option(named: Seq<CliOption>, o: CliOption) -> Seq<CliOption>
    decreases named.len(),
{
    if named.len() == 0 {
        Seq::empty()
    } else if named.last() == o {
        without_option(named.drop_last(), o)
    } else {
        without_option(named.drop_last(), o).push(named.last())
    }
}

/// The options given, once an option that waits with its value is settled for a message:
/// it is added, or, if it was given before, the repetition takes it out.
pub open spec fn settled_named(m: ParseModel) -> Seq<CliOption> {
    match m.pending {
        Some((o, Some(_))) => if m.named.contains(o) {
            without_option(m.named, o)
        } else {
            m.named.push(o)
        },
        _ => m.named,
    }
}

/// Settles the waiting option: it fails if its value never came.
pub open spec fn settle(m: ParseModel) -> Result<ParseModel, ArgsErrorView> {
    match m.pending {
        None => Ok(m),
        Some((o, None)) => Err(ArgsErrorView::MissingValue(o)),
        Some((o, Some(v))) => match give_value(m.args, o, v) {
            Ok(a) => Ok(ParseModel { args: a, pending: None, named: with_option(m.named, o), ..m }),
            Err(e) => Err(e),
        },
    }
}

/// After settling, option `o` (which takes a value) receives `value`, or waits for the next argument.
pub open spec fn start_value(m: ParseModel, o: CliOption, value: Option<Seq<char>>) -> Result<ParseModel, ArgsErrorView> {
    match settle(m) {
        Err(e) => Err(e),
        Ok(r) => match value {
            Some(v) => match give_value(r.args, o, v) {
                Ok(a) => Ok(ParseModel { args: a, named: with_option(r.named, o), ..r }),
                Err(e) => Err(e),
            },
            None => Ok(ParseModel { pending: Some((o, None)), ..r }),
        },
    }
}

/// After settling, flag `o` is given.
pub open spec fn start_flag(m: ParseModel, o: CliOption) -> Result<ParseModel, ArgsErrorView> {
    match settle(m) {
        Err(e) => Err(e),
        Ok(r) => match give_flag(r.args, o) {
            Ok(a) => Ok(ParseModel { args: a, named: with_option(r.named, o), ..r }),
            Err(e) => Err(e),
        },
    }
}

/// The index of the first `c` in `s` at or after `from`, or the length of `s`.
pub open spec fn find_char(s: Seq<char>, c: char, from: int) -> int
    decreases s.len() - from,
{
    if from >= s.len() {
        s.len() as int
    } else if s[from] == c {
        from
    } else {
        find_char(s, c, from + 1)
    }
}

/// An argument that starts with `--` and has more after it.
pub open spec fn long_step(m: ParseModel, arg: Seq<char>) -> Result<ParseModel, ArgsErrorView> {
    let eq = find_char(arg, '=', 2);
    let name = arg.subrange(2, eq);
    let value = if eq < arg.len() { Some(arg.subrange(eq + 1, arg.len() as int)) } else { None };
    match long_option(name) {
        None => Err(ArgsErrorView::UnknownArgument(arg.subrange(0, eq), settled_named(m))),
        Some(o) => if takes_value(o) {
            start_value(m, o, value)
        } else {
            match value {
                Some(v) => Err(ArgsErrorView::UnexpectedValue(o, v, m.named)),
                None => start_flag(m, o),
            }
        },
    }
}

/// An argument that starts with a single `-` and has more after it.
pub open spec fn short_step(m: ParseModel, arg: Seq<char>) -> Result<ParseModel, ArgsErrorView> {
    let c = arg[1];
    let rest = arg.subrange(2, arg.len() as int);
    match short_option(c) {
        None => Err(ArgsErrorView::UnknownArgument(seq!['-', c], settled_named(m))),
        Some(o) => if takes_value(o) {
            let value = if rest.len() == 0 {
                None
            } else if rest[0] == '=' {
                Some(rest.drop_first())
            } else {
                Some(rest)
            };
            start_value(m, o, value)
        } else {
            start_flag(m, o)
        },
    }
}

/// One argument of the command line.
pub open spec fn parse_step(m: ParseModel, arg: Seq<char>) -> Result<ParseModel, ArgsErrorView> {
    if m.trailing {
        Ok(ParseModel { args: ArgsView { script_args: m.args.script_args.push(arg), ..m.args }, ..m })
    } else if arg == seq!['-', '-'] {
        match settle(m) {
            Ok(r) => Ok(ParseModel { trailing: true, ..r }),
            Err(e) => Err(e),
        }
    } else if arg.len() > 2 && arg[0] == '-' && arg[1] == '-' {
        long_step(m, arg)
    } else if arg.len() > 1 && arg[0] == '-' && arg[1] != '-' {
        short_step(m, arg)
    } else {
        match m.pending {
            Some((o, None)) => Ok(ParseModel { pending: Some((o, Some(arg))), ..m }),
            _ => Err(ArgsErrorView::UnknownArgument(arg, settled_named(m))),
        }
    }
}

/// The arguments `args`, one after the other, from state `m`.
pub open spec fn parse_steps(m: ParseModel, args: Seq<Seq<char>>) -> Result<ParseModel, ArgsErrorView>
    decreases args.len(),
{
    if args.len() == 0 {
        Ok(m)
    } else {
        match parse_step(m, args[0]) {
            Ok(next) => parse_steps(next, args.drop_first()),
            Err(e) => Err(e),
        }
    }
}

/// The state before the first argument.
pub open spec fn initial_parse() -> ParseModel {
    ParseModel { args: empty_args(), pending: None, trailing: false, named: Seq::empty() }
}

/// The meaning of a whole command line; its first element names the program and is skipped.
pub open spec fn parse_command_line(args: Seq<Seq<char>>) -> Result<ArgsView, ArgsErrorView> {
    if args.len() == 0 {
        Ok(empty_args())
    } else {
        match parse_steps(initial_parse(), args.drop_first()) {
            Err(e) => Err(e),
            Ok(m) => match settle(m) {
                Err(e) => Err(e),
                Ok(r) => Ok(r.args),
            },
        }
    }
}

} // verus!

verus! {

/// Whether an exec outcome `r`, leaving `after` behind, is the model outcome `expected`.
pub open spec fn same_outcome<V>(r: Result<(), ArgsError>, after: V, expected: Result<V, ArgsErrorView>) -> bool {
    match expected {
        Ok(v) => r is Ok && after == v,
        Err(e) => r matches Err(x) && x@ == e,
    }
}

impl Args {
    /// A command line with no option given.
    pub fn empty() -> (r: Args)
        ensures
            r@ == empty_args(),
    {
        let r = Args {
            no_frontend: false,
            no_color: false,
            eval: None,
            link_connect: false,
            link_name: None,
            link_protocol: None,
            link_options: None,
            link_init: false,
            link_mode: None,
            file: None,
            script_args: Vec::new(),
        };
        assert(r@.script_args =~= Seq::<Seq<char>>::empty());
        r
    }

    fn is_given(&self, o: CliOption) -> (r: bool)
        ensures
            r == is_given(self@, o),
    {
        match o {
            CliOption::NoFrontend => self.no_frontend,
            CliOption::NoColor => self.no_color,
            CliOption::Eval => self.eval.is_some(),
            CliOption::LinkConnect => self.link_connect,
            CliOption::LinkName => self.link_name.is_some(),
            CliOption::LinkProtocol => self.link_protocol.is_some(),
            CliOption::LinkOptions => self.link_options.is_some(),
            CliOption::LinkInit => self.link_init,
            CliOption::LinkMode => self.link_mode.is_some(),
            CliOption::File => self.file.is_some(),
            CliOption::Help => false,
        }
    }

    fn store_value(&mut self, o: CliOption, v: String) -> (r: Result<(), ArgsError>)
        ensures
            same_outcome(r, final(self)@, store_value(old(self)@, o, v@)),
    {
        match o {
            CliOption::Eval => {
                self.eval = Some(v);
                Ok(())
            },
            CliOption::LinkName => {
                self.link_name = Some(v);
                Ok(())
            },
            CliOption::LinkMode => {
                self.link_mode = Some(v);
                Ok(())
            },
            CliOption::File => {
                if v.as_str().is_empty() {
                    return Err(ArgsError::MissingValue(o));
                }
                self.file = Some(v);
                Ok(())
            },
            CliOption::LinkProtocol => match parse_link_protocol(v.as_str()) {
                Ok(p) => {
                    self.link_protocol = Some(p);
                    Ok(())
                },
                Err(m) => Err(ArgsError::InvalidValue(o, v, m)),
            },
            CliOption::LinkOptions => match parse_link_options(v.as_str()) {
                Ok(n) => {
                    self.link_options = Some(n);
                    Ok(())
                },
                Err(m) => Err(ArgsError::InvalidValue(o, v, m)),
            },
            _ => Ok(()),
        }
    }

    fn give_value(&mut self, o: CliOption, v: String) -> (r: Result<(), ArgsError>)
        ensures
            same_outcome(r, final(self)@, give_value(old(self)@, o, v@)),
    {
        if self.is_given(o) {
            return Err(ArgsError::Repeated(o));
        }
        self.store_value(o, v)
    }

    fn give_flag(&mut self, o: CliOption) -> (r: Result<(), ArgsError>)
        ensures
            same_outcome(r, final(self)@, give_flag(old(self)@, o)),
    {
        if o == CliOption::Help {
            return Err(ArgsError::HelpRequested);
        }
        if self.is_given(o) {
            return Err(ArgsError::Repeated(o));
        }
        match o {
            CliOption::NoFrontend => self.no_frontend = true,
            CliOption::NoColor => self.no_color = true,
            CliOption::LinkConnect => self.link_connect = true,
            CliOption::LinkInit => self.link_init = true,
            _ => {},
        }
        Ok(())
    }
}

/// An option waiting to be settled, with its value once that has come.
struct Pending {
    option: CliOption,
    value: Option<String>,
}

/// A parse in progress.
struct ArgParser {
    args: Args,
    pending: Option<Pending>,
    trailing: bool,
    named: Vec<CliOption>,
}

/// A copy of a list of options.
fn copy_options(v: &Vec<CliOption>) -> (r: Vec<CliOption>)
    ensures
        r@ == v@,
{
    let mut r: Vec<CliOption> = Vec::new();
    for k in 0..v.len()
        invariant
            r@ == v@.take(k as int),
    {
        r.push(v[k]);
        assert(v@.take(k + 1) =~= v@.take(k as int).push(v@[k as int]));
    }
    assert(v@.take(v@.len() as int) =~= v@);
    r
}

impl View for ArgParser {
    type V = ParseModel;

    closed spec fn view(&self) -> ParseModel {
        ParseModel {
            args: self.args@,
            pending: match self.pending {
                None => None,
                Some(p) => Some((p.option, p.value.deep_view())),
            },
            trailing: self.trailing,
            named: self.named@,
        }
    }
}

impl ArgParser {
    /// The options given, once an option that waits with its value is settled for a message.
    fn settled_named(&self) -> (r: Vec<CliOption>)
        ensures
            r@ == settled_named(self@),
    {
        let waiting = match &self.pending {
            Some(p) => p.value.is_some(),
            None => false,
        };
        if !waiting {
            return copy_options(&self.named);
        }
        let o = self.pending.as_ref().unwrap().option;
        let mut given_before = false;
        let mut r: Vec<CliOption> = Vec::new();
        for k in 0..self.named.len()
            invariant
                r@ == without_option(self.named@.take(k as int), o),
                given_before == self.named@.take(k as int).contains(o),
        {
            let ghost prefix = self.named@.take(k as int);
            assert(self.named@.take(k + 1).drop_last() =~= prefix);
            assert(self.named@.take(k + 1).last() == self.named@[k as int]);
            if self.named[k] == o {
                given_before = true;
                assert(self.named@.take(k + 1)[k as int] == o);
            } else {
                r.push(self.named[k]);
                proof {
                    let next = self.named@.take(k + 1);
                    assert(next =~= prefix.push(self.named@[k as int]));
                    if next.contains(o) {
                        let j = choose|j: int| 0 <= j < next.len() && next[j] == o;
                        assert(prefix[j] == o);
                    }
                    if prefix.contains(o) {
                        let j = choose|j: int| 0 <= j < prefix.len() && prefix[j] == o;
                        assert(next[j] == o);
                    }
                }
            }
        }
        assert(self.named@.take(self.named@.len() as int) =~= self.named@);
        if given_before {
            r
        } else {
            let mut all = copy_options(&self.named);
            all.push(o);
            all
        }
    }

    /// Records that option `o` was named.
    fn name_option(&mut self, o: CliOption)
        ensures
            final(self)@ == (ParseModel { named: with_option(old(self)@.named, o), ..old(self)@ }),
    {
        let mut k: usize = 0;
        while k < self.named.len()
            invariant
                k <= self.named@.len(),
                forall|j: int| 0 <= j < k ==> self.named@[j] != o,
            decreases self.named@.len() - k,
        {
            if self.named[k] == o {
                assert(self.named@.contains(o));
                return;
            }
            k = k + 1;
        }
        self.named.push(o);
    }

    fn settle(&mut self) -> (r: Result<(), ArgsError>)
        ensures
            same_outcome(r, final(self)@, settle(old(self)@)),
    {
        match self.pending.take() {
            None => Ok(()),
            Some(p) => match p.value {
                None => Err(ArgsError::MissingValue(p.option)),
                Some(v) => {
                    self.name_option(p.option);
                    self.args.give_value(p.option, v)
                },
            },
        }
    }

    fn start_value(&mut self, o: CliOption, value: Option<Vec<char>>) -> (r: Result<(), ArgsError>)
        ensures
            same_outcome(
                r,
                final(self)@,
                start_value(
                    old(self)@,
                    o,
                    match value {
                        Some(v) => Some(v@),
                        None => None,
                    },
                ),
            ),
    {
        self.settle()?;
        match value {
            Some(v) => {
                self.name_option(o);
                self.args.give_value(o, string_of(v.as_slice()))
            },
            None => {
                self.pending = Some(Pending { option: o, value: None });
                Ok(())
            },
        }
    }

    fn start_flag(&mut self, o: CliOption) -> (r: Result<(), ArgsError>)
        ensures
            same_outcome(r, final(self)@, start_flag(old(self)@, o)),
    {
        self.settle()?;
        self.name_option(o);
        self.args.give_flag(o)
    }

    fn long_step(&mut self, arg: &[char]) -> (r: Result<(), ArgsError>)
        requires
            arg@.len() > 2,
        ensures
            same_outcome(r, final(self)@, long_step(old(self)@, arg@)),
    {
        let eq = find_char_from(arg, '=', 2);
        let name = slice_range(arg, 2, eq);
        let value = if eq < arg.len() {
            Some(slice_range(arg, eq + 1, arg.len()))
        } else {
            None
        };
        match lookup_long_option(name.as_slice()) {
            None => Err(
                ArgsError::UnknownArgument(
                    string_of(slice_range(arg, 0, eq).as_slice()),
                    self.settled_named(),
                ),
            ),
            Some(o) => {
                if o.takes_value() {
                    self.start_value(o, value)
                } else {
                    match value {
                        Some(v) => Err(
                            ArgsError::UnexpectedValue(
                                o,
                                string_of(v.as_slice()),
                                copy_options(&self.named),
                            ),
                        ),
                        None => self.start_flag(o),
                    }
                }
            },
        }
    }

    fn short_step(&mut self, arg: &[char]) -> (r: Result<(), ArgsError>)
        requires
            arg@.len() > 1,
        ensures
            same_outcome(r, final(self)@, short_step(old(self)@, arg@)),
    {
        let c = arg[1];
        let rest = slice_from(arg, 2);
        assert(rest@ == arg@.subrange(2, arg@.len() as int));
        match lookup_short_option(c) {
            None => {
                let mut shown = String::new();
                push_char(&mut shown, '-');
                push_char(&mut shown, c);
                assert(shown@ == seq!['-', c]);
                Err(ArgsError::UnknownArgument(shown, self.settled_named()))
            },
            Some(o) => {
                if o.takes_value() {
                    let value = if rest.len() == 0 {
                        None
                    } else if rest[0] == '=' {
                        Some(slice_from(rest.as_slice(), 1))
                    } else {
                        Some(rest)
                    };
                    self.start_value(o, value)
                } else {
                    self.start_flag(o)
                }
            },
        }
    }

    fn step(&mut self, arg: &String) -> (r: Result<(), ArgsError>)
        ensures
            same_outcome(r, final(self)@, parse_step(old(self)@, arg@)),
    {
        if self.trailing {
            let ghost before = self.args.script_args.deep_view();
            self.args.script_args.push(arg.clone());
            assert(self.args.script_args.deep_view() =~= before.push(arg@));
            return Ok(());
        }
        let a = chars_of(arg.as_str());
        if a.len() == 2 && a[0] == '-' && a[1] == '-' {
            assert(a@ == seq!['-', '-']);
            self.settle()?;
            self.trailing = true;
            Ok(())
        } else if a.len() > 2 && a[0] == '-' && a[1] == '-' {
            self.long_step(a.as_slice())
        } else if a.len() > 1 && a[0] == '-' && a[1] != '-' {
            self.short_step(a.as_slice())
        } else {
            let waiting = match &self.pending {
                Some(p) => p.value.is_none(),
                None => false,
            };
            if waiting {
                let o = self.pending.as_ref().unwrap().option;
                self.pending = Some(Pending { option: o, value: Some(arg.clone()) });
                Ok(())
            } else {
                Err(ArgsError::UnknownArgument(arg.clone(), self.settled_named()))
            }
        }
    }
}

/// The index of the first `c` in `s` at or after `from`, or the length of `s`.
fn find_char_from(s: &[char], c: char, from: usize) -> (r: usize)
    requires
        from <= s@.len(),
    ensures
        r as int == find_char(s@, c, from as int),
        from <= r <= s@.len(),
{
    let mut i = from;
    while i < s.len()
        invariant
            from <= i <= s@.len(),
            find_char(s@, c, from as int) == find_char(s@, c, i as int),
        decreases s@.len() - i,
    {
        if s[i] == c {
            return i;
        }
        i = i + 1;
    }
    i
}

} // verus!

verus! {

/// The mathematical model of a parse outcome.
pub open spec fn args_outcome(r: Result<Args, ArgsError>) -> Result<ArgsView, ArgsErrorView> {
    match r {
        Ok(a) => Ok(a@),
        Err(e) => Err(e@),
    }
}

impl Args {
    /// Reads a command line; its first element names the program.
    ///
    /// Long options are written `--name value` or `--name=value`, short ones `-e value`,
    /// `-evalue` or `-e=value`. A value cannot start with `-` unless it is attached with `=`
    /// or is `-` alone. Every option may be given once; the arguments for the script come
    /// after `--`.
    pub fn try_parse_from(args: Vec<String>) -> (r: Result<Args, ArgsError>)
        ensures
            args_outcome(r) == parse_command_line(args.deep_view()),
    {
        let n = args.len();
        if n == 0 {
            return Ok(Args::empty());
        }
        let ghost all = args.deep_view();
        let mut p = ArgParser {
            args: Args::empty(),
            pending: None,
            trailing: false,
            named: Vec::new(),
        };
        assert(p@ == initial_parse());
        let mut i: usize = 1;
        assert(all.skip(1) =~= all.drop_first());
        while i < n
            invariant
                1 <= i <= n,
                n == args@.len(),
                all == args.deep_view(),
                parse_steps(initial_parse(), all.drop_first()) == parse_steps(p@, all.skip(i as int)),
            decreases n - i,
        {
            assert(all.skip(i as int)[0] == args[i as int]@);
            assert(all.skip(i as int).drop_first() =~= all.skip(i + 1));
            let r = p.step(&args[i]);
            if r.is_err() {
                return Err(r.unwrap_err());
            }
            i = i + 1;
        }
        assert(all.skip(n as int) =~= Seq::<Seq<char>>::empty());
        match p.settle() {
            Err(e) => Err(e),
            Ok(()) => Ok(p.args),
        }
    }
}

} // verus!

verus! {

/// The usage line shown under most refused command lines.
pub const PLAIN_USAGE: &'static str = "Usage: wolfie [OPTIONS] [-- <SCRIPT_ARGS>...]";

/// The line that closes the text shown for a refused command line.
pub const TRY_HELP: &'static str = "\n\nFor more information, try '--help'.\n";

/// The help shown for `-h` and `--help`.
pub const HELP_TEXT: &'static str = "A friendlier CLI interface for the Wolfram Kernel

Usage: wolfie [OPTIONS] [-- <SCRIPT_ARGS>...]

Arguments:
  [SCRIPT_ARGS]...  Arguments passed to the script file

Options:
      --no-frontend              Disable Wolfram FrontEnd-backed completions and rendering support
      --no-color                 Disable ANSI coloring
  -e, --eval <EVAL>              Evaluate a Wolfram Language expression and exit
      --linkconnect              Connect to an existing WSTP link instead of launching a new kernel
      --linkname <name>          WSTP link name to use with --linkconnect
      --linkprotocol <protocol>  WSTP link protocol to use with --linkconnect
      --linkoptions <val>        WSTP link options integer to use when launching or connecting to a Wolfram Kernel
      --linkinit                 Initialize a connected kernel by setting its directory to wolfie's launch directory
      --linkmode <mode>          WSTP link mode to use when launching or connecting to a Wolfram Kernel
  -f, --file <file>              Execute a Wolfram Language script or package file and exit
  -h, --help                     Print help
";

/// The usage line shown under a refused command line: the plain one, or, once options were
/// named, those options in the order they were first named.
pub open spec fn usage_line(named: Seq<CliOption>) -> Seq<char> {
    if named.len() == 0 {
        PLAIN_USAGE@
    } else {
        "Usage: wolfie"@ + options_shown(named) + " [-- <SCRIPT_ARGS>...]"@
    }
}

/// Each option of `named`, shown after a space.
pub open spec fn options_shown(named: Seq<CliOption>) -> Seq<char>
    decreases named.len(),
{
    if named.len() == 0 {
        Seq::empty()
    } else {
        options_shown(named.drop_last()) + " "@ + option_display(named.last())
    }
}

/// The long flag of an option.
pub open spec fn long_flag(o: CliOption) -> Seq<char> {
    match o {
        CliOption::NoFrontend => "--no-frontend"@,
        CliOption::NoColor => "--no-color"@,
        CliOption::Eval => "--eval"@,
        CliOption::LinkConnect => "--linkconnect"@,
        CliOption::LinkName => "--linkname"@,
        CliOption::LinkProtocol => "--linkprotocol"@,
        CliOption::LinkOptions => "--linkoptions"@,
        CliOption::LinkInit => "--linkinit"@,
        CliOption::LinkMode => "--linkmode"@,
        CliOption::File => "--file"@,
        CliOption::Help => "--help"@,
    }
}

/// Whether an argument has the form of a long option.
pub open spec fn looks_long(a: Seq<char>) -> bool {
    a.len() >= 2 && a[0] == '-' && a[1] == '-'
}

/// Whether an argument has the form of a short option.
pub open spec fn looks_short(a: Seq<char>) -> bool {
    a.len() >= 2 && a[0] == '-' && a[1] != '-'
}

/// The tip that shows how to pass an unknown option to the script.
pub open spec fn pass_as_value_tip(a: Seq<char>) -> Seq<char> {
    "  tip: to pass '"@ + a + "' as a value, use '-- "@ + a + "'"@
}

/// The text shown for an argument that names no option. `named` are the options named before
/// it; `similar` is an option whose long name is close to an unknown long option, if one is.
/// An unknown long or short option comes with a tip on passing it to the script, and a long
/// one with the similar option (which the usage line then counts as named).
pub open spec fn unknown_argument_text(a: Seq<char>, named: Seq<CliOption>, similar: Option<CliOption>) -> Seq<char> {
    let head = "error: unexpected argument '"@ + a + "' found"@;
    if looks_long(a) {
        match similar {
            None => head + "\n\n"@ + pass_as_value_tip(a) + "\n\n"@ + usage_line(named) + TRY_HELP@,
            Some(s) => head + "\n\n  tip: a similar argument exists: '"@ + long_flag(s) + "'\n"@
                + pass_as_value_tip(a) + "\n\n"@ + usage_line(with_option(named, s)) + TRY_HELP@,
        }
    } else if looks_short(a) {
        head + "\n\n"@ + pass_as_value_tip(a) + "\n\n"@ + PLAIN_USAGE@ + TRY_HELP@
    } else {
        head + "\n\n"@ + PLAIN_USAGE@ + TRY_HELP@
    }
}

/// The text shown for a refused command line, given the option (if any) whose long name is
/// close to an unknown long option.
pub open spec fn args_error_text(e: ArgsErrorView, similar: Option<CliOption>) -> Seq<char> {
    match e {
        ArgsErrorView::UnknownArgument(a, named) => unknown_argument_text(a, named, similar),
        ArgsErrorView::MissingValue(o) => "error: a value is required for '"@ + option_display(o)
            + "' but none was supplied"@ + TRY_HELP@,
        ArgsErrorView::Repeated(o) => "error: the argument '"@ + option_display(o)
            + "' cannot be used multiple times\n\n"@ + PLAIN_USAGE@ + TRY_HELP@,
        ArgsErrorView::UnexpectedValue(o, v, named) => "error: unexpected value '"@ + v + "' for '"@
            + option_display(o) + "' found; no more were expected\n\n"@ + usage_line(
            with_option(named, o),
        ) + TRY_HELP@,
        ArgsErrorView::InvalidValue(o, v, reason) => "error: invalid value '"@ + v + "' for '"@
            + option_display(o) + "': "@ + reason + TRY_HELP@,
        ArgsErrorView::HelpRequested => HELP_TEXT@,
    }
}

/// The text shown for a refused command line, where no option is taken as close to an unknown one.
pub open spec fn args_error_message(e: ArgsErrorView) -> Seq<char> {
    args_error_text(e, None)
}

impl CliOption {
    /// The long flag of the option.
    pub fn long_flag(self) -> (r: String)
        ensures
            r@ == long_flag(self),
    {
        match self {
            CliOption::NoFrontend => String::from_str("--no-frontend"),
            CliOption::NoColor => String::from_str("--no-color"),
            CliOption::Eval => String::from_str("--eval"),
            CliOption::LinkConnect => String::from_str("--linkconnect"),
            CliOption::LinkName => String::from_str("--linkname"),
            CliOption::LinkProtocol => String::from_str("--linkprotocol"),
            CliOption::LinkOptions => String::from_str("--linkoptions"),
            CliOption::LinkInit => String::from_str("--linkinit"),
            CliOption::LinkMode => String::from_str("--linkmode"),
            CliOption::File => String::from_str("--file"),
            CliOption::Help => String::from_str("--help"),
        }
    }
}

/// Every option, in the order the command line declares them.
pub fn all_options() -> (r: Vec<CliOption>)
    ensures
        r@ == seq![
            CliOption::NoFrontend,
            CliOption::NoColor,
            CliOption::Eval,
            CliOption::LinkConnect,
            CliOption::LinkName,
            CliOption::LinkProtocol,
            CliOption::LinkOptions,
            CliOption::LinkInit,
            CliOption::LinkMode,
            CliOption::File,
            CliOption::Help,
        ],
{
    vec![
        CliOption::NoFrontend,
        CliOption::NoColor,
        CliOption::Eval,
        CliOption::LinkConnect,
        CliOption::LinkName,
        CliOption::LinkProtocol,
        CliOption::LinkOptions,
        CliOption::LinkInit,
        CliOption::LinkMode,
        CliOption::File,
        CliOption::Help,
    ]
}

/// The usage line for the options `named`.
fn usage_text(named: &Vec<CliOption>) -> (r: String)
    ensures
        r@ == usage_line(named@),
{
    if named.len() == 0 {
        return String::from_str(PLAIN_USAGE);
    }
    let mut r = String::from_str("Usage: wolfie");
    let ghost start = r@;
    for k in 0..named.len()
        invariant
            start == "Usage: wolfie"@,
            r@ == start + options_shown(named@.take(k as int)),
    {
        let ghost before = r@;
        r.append(" ");
        r.append(named[k].display().as_str());
        assert(named@.take(k + 1).drop_last() =~= named@.take(k as int));
        assert(r@ =~= before + " "@ + option_display(named@[k as int]));
    }
    assert(named@.take(named@.len() as int) =~= named@);
    r.append(" [-- <SCRIPT_ARGS>...]");
    r
}

/// The options `named`, with `o` added at the end unless it is already among them.
fn options_with(named: &Vec<CliOption>, o: CliOption) -> (r: Vec<CliOption>)
    ensures
        r@ == with_option(named@, o),
{
    let mut r = copy_options(named);
    let mut k: usize = 0;
    while k < r.len()
        invariant
            r@ == named@,
            k <= r@.len(),
            forall|j: int| 0 <= j < k ==> r@[j] != o,
        decreases r@.len() - k,
    {
        if r[k] == o {
            assert(named@.contains(o));
            return r;
        }
        k = k + 1;
    }
    r.push(o);
    r
}

fn pass_as_value_tip_text(a: &String) -> (r: String)
    ensures
        r@ == pass_as_value_tip(a@),
{
    let mut m = String::from_str("  tip: to pass '");
    m.append(a.as_str());
    m.append("' as a value, use '-- ");
    m.append(a.as_str());
    m.append("'");
    m
}

fn unknown_argument_message(a: &String, named: &Vec<CliOption>, similar: Option<CliOption>) -> (r: String)
    ensures
        r@ == unknown_argument_text(a@, named@, similar),
{
    let chars = chars_of(a.as_str());
    let mut m = String::from_str("error: unexpected argument '");
    m.append(a.as_str());
    m.append("' found");
    let ghost head = m@;
    let long = chars.len() >= 2 && chars[0] == '-' && chars[1] == '-';
    let short = chars.len() >= 2 && chars[0] == '-' && chars[1] != '-';
    if long {
        match similar {
            None => {
                m.append("\n\n");
                m.append(pass_as_value_tip_text(a).as_str());
                m.append("\n\n");
                m.append(usage_text(named).as_str());
                m.append(TRY_HELP);
                assert(m@ =~= head + "\n\n"@ + pass_as_value_tip(a@) + "\n\n"@ + usage_line(named@)
                    + TRY_HELP@);
            },
            Some(s) => {
                m.append("\n\n  tip: a similar argument exists: '");
                m.append(s.long_flag().as_str());
                m.append("'\n");
                m.append(pass_as_value_tip_text(a).as_str());
                m.append("\n\n");
                m.append(usage_text(&options_with(named, s)).as_str());
                m.append(TRY_HELP);
                assert(m@ =~= head + "\n\n  tip: a similar argument exists: '"@ + long_flag(s)
                    + "'\n"@ + pass_as_value_tip(a@) + "\n\n"@ + usage_line(with_option(named@, s))
                    + TRY_HELP@);
            },
        }
    } else if short {
        m.append("\n\n");
        m.append(pass_as_value_tip_text(a).as_str());
        m.append("\n\n");
        m.append(PLAIN_USAGE);
        m.append(TRY_HELP);
        assert(m@ =~= head + "\n\n"@ + pass_as_value_tip(a@) + "\n\n"@ + PLAIN_USAGE@ + TRY_HELP@);
    } else {
        m.append("\n\n");
        m.append(PLAIN_USAGE);
        m.append(TRY_HELP);
        assert(m@ =~= head + "\n\n"@ + PLAIN_USAGE@ + TRY_HELP@);
    }
    m
}

impl ArgsError {
    /// The text shown for this refusal, given the option (if any) whose long name is close to
    /// an unknown long option.
    pub fn message_with_similar(&self, similar: Option<CliOption>) -> (r: String)
        ensures
            r@ == args_error_text(self@, similar),
    {
        match self {
            ArgsError::UnknownArgument(a, named) => unknown_argument_message(a, named, similar),
            ArgsError::MissingValue(o) => {
                let mut m = String::from_str("error: a value is required for '");
                m.append(o.display().as_str());
                m.append("' but none was supplied");
                m.append(TRY_HELP);
                m
            },
            ArgsError::Repeated(o) => {
                let mut m = String::from_str("error: the argument '");
                m.append(o.display().as_str());
                m.append("' cannot be used multiple times\n\n");
                m.append(PLAIN_USAGE);
                m.append(TRY_HELP);
                m
            },
            ArgsError::UnexpectedValue(o, v, named) => {
                let mut m = String::from_str("error: unexpected value '");
                m.append(v.as_str());
                m.append("' for '");
                m.append(o.display().as_str());
                m.append("' found; no more were expected\n\n");
                m.append(usage_text(&options_with(named, *o)).as_str());
                m.append(TRY_HELP);
                m
            },
            ArgsError::InvalidValue(o, v, reason) => {
                let mut m = String::from_str("error: invalid value '");
                m.append(v.as_str());
                m.append("' for '");
                m.append(o.display().as_str());
                m.append("': ");
                m.append(reason.as_str());
                m.append(TRY_HELP);
                m
            },
            ArgsError::HelpRequested => String::from_str(HELP_TEXT),
        }
    }

    /// The text shown for this refusal, where no option is taken as close to an unknown one.
    pub fn message(&self) -> (r: String)
        ensures
            r@ == args_error_message(self@),
    {
        self.message_with_similar(None)
    }
}

/// Whether the option `arg` takes the next argument as its value.
pub open spec fn consumes_next(arg: Seq<char>) -> bool {
    arg == "-e"@ || arg == "--eval"@ || arg == "--linkname"@ || arg == "--linkprotocol"@
        || arg == "--linkoptions"@ || arg == "--linkmode"@
}

/// Whether the option `arg` takes the next argument as its value.
pub fn value_option_consumes_next_arg(arg: &str) -> (r: bool)
    ensures
        r == consumes_next(arg@),
{
    let a = chars_of(arg);
    chars_eq_str(a.as_slice(), "-e") || chars_eq_str(a.as_slice(), "--eval") || chars_eq_str(
        a.as_slice(),
        "--linkname",
    ) || chars_eq_str(a.as_slice(), "--linkprotocol") || chars_eq_str(a.as_slice(), "--linkoptions")
        || chars_eq_str(a.as_slice(), "--linkmode")
}

/// Whether `arg` names the script file explicitly, which rules out a script given directly.
pub open spec fn names_file(arg: Seq<char>) -> bool {
    arg == "--"@ || arg == "-f"@ || arg == "--file"@ || (arg.len() >= 7 && arg.take(7) == "--file="@)
}

/// The position of a script given directly (as by a `#!` line), searching from `i`: the first
/// argument that does not start with `-` and is not the value of an option before it.
pub open spec fn direct_script_from(args: Seq<Seq<char>>, i: int) -> Option<int>
    decreases args.len() + 2 - i,
{
    if i < 1 || i >= args.len() {
        None
    } else if names_file(args[i]) {
        None
    } else if consumes_next(args[i]) {
        direct_script_from(args, i + 2)
    } else if args[i].len() > 0 && args[i][0] == '-' {
        direct_script_from(args, i + 1)
    } else {
        Some(i)
    }
}

fn names_file_exec(a: &[char]) -> (r: bool)
    ensures
        r == names_file(a@),
{
    if chars_eq_str(a, "--") || chars_eq_str(a, "-f") || chars_eq_str(a, "--file") {
        return true;
    }
    if a.len() >= 7 {
        let head = slice_range(a, 0, 7);
        chars_eq_str(head.as_slice(), "--file=")
    } else {
        false
    }
}

/// The position of a script given directly on the command line, if any.
pub fn direct_script_arg_index(args: &Vec<String>) -> (r: Option<usize>)
    ensures
        match r {
            Some(i) => direct_script_from(args.deep_view(), 1) == Some(i as int),
            None => direct_script_from(args.deep_view(), 1) is None,
        },
{
    let ghost all = args.deep_view();
    let n = args.len();
    let mut index: usize = 1;
    while index < n
        invariant
            1 <= index,
            n == args@.len(),
            all == args.deep_view(),
            direct_script_from(all, 1) == direct_script_from(all, index as int),
        decreases n - index,
    {
        let a = chars_of(args[index].as_str());
        assert(a@ == all[index as int]);
        if names_file_exec(a.as_slice()) {
            return None;
        }
        if value_option_consumes_next_arg(args[index].as_str()) {
            if index + 1 < n {
                index = index + 2;
            } else {
                assert(direct_script_from(all, index + 2) is None);
                index = n;
            }
            continue;
        }
        if a.len() > 0 && a[0] == '-' {
            index = index + 1;
            continue;
        }
        return Some(index);
    }
    None
}

} // verus!

verus! {

/// A command line after a directly given script was rewritten into `--file`.
#[derive(Debug)]
pub struct NormalizedArgs {
    pub args: Vec<String>,
    pub direct_script: bool,
}

/// What follows the script: unchanged, behind a `--` that is added unless it is already there.
pub open spec fn script_tail(args: Seq<Seq<char>>, i: int) -> Seq<Seq<char>> {
    if args.len() > i + 1 {
        (if args[i + 1] != "--"@ { seq!["--"@] } else { Seq::empty() }) + args.skip(i + 1)
    } else {
        Seq::empty()
    }
}

/// The command line with a directly given script at position `i` rewritten as `--file`.
pub open spec fn normalized_command_line(args: Seq<Seq<char>>) -> Seq<Seq<char>> {
    match direct_script_from(args, 1) {
        None => args,
        Some(i) => args.take(i) + seq!["--file"@, args[i]] + script_tail(args, i),
    }
}

/// A position found by the search lies within the command line, after the program name.
pub proof fn lemma_direct_script_in_range(args: Seq<Seq<char>>, j: int)
    ensures
        direct_script_from(args, j) matches Some(i) ==> 1 <= j <= i < args.len() && !(
        args[i].len() > 0 && args[i][0] == '-'),
    decreases args.len() + 2 - j,
{
    if 1 <= j < args.len() && !names_file(args[j]) {
        if consumes_next(args[j]) {
            lemma_direct_script_in_range(args, j + 2);
        } else if args[j].len() > 0 && args[j][0] == '-' {
            lemma_direct_script_in_range(args, j + 1);
        }
    }
}

fn push_clones(out: &mut Vec<String>, src: &Vec<String>, from: usize, to: usize)
    requires
        from <= to <= src@.len(),
    ensures
        final(out).deep_view() == old(out).deep_view() + src.deep_view().subrange(from as int, to as int),
{
    let ghost start = out.deep_view();
    for k in from..to
        invariant
            from <= k <= to <= src@.len(),
            out.deep_view() == start + src.deep_view().subrange(from as int, k as int),
    {
        let ghost before = out.deep_view();
        out.push(src[k].clone());
        assert(out.deep_view() =~= before.push(src[k as int]@));
        assert(src.deep_view().subrange(from as int, k + 1) =~= src.deep_view().subrange(
            from as int,
            k as int,
        ).push(src[k as int]@));
    }
}

/// Rewrites a script given directly (as a `#!` line does) into `--file <script> -- <args>`.
pub fn normalized_args(args: Vec<String>) -> (r: NormalizedArgs)
    ensures
        r.args.deep_view() == normalized_command_line(args.deep_view()),
        r.direct_script == (direct_script_from(args.deep_view(), 1) is Some),
{
    let ghost all = args.deep_view();
    let script_index = match direct_script_arg_index(&args) {
        None => {
            return NormalizedArgs { args, direct_script: false };
        },
        Some(i) => i,
    };
    proof {
        lemma_direct_script_in_range(all, 1);
    }
    let n = args.len();
    let mut normalized: Vec<String> = Vec::new();
    assert(normalized.deep_view() =~= Seq::<Seq<char>>::empty());
    push_clones(&mut normalized, &args, 0, script_index);
    assert(all.subrange(0, script_index as int) == all.take(script_index as int));
    let ghost head = normalized.deep_view();
    normalized.push(String::from_str("--file"));
    normalized.push(args[script_index].clone());
    assert(normalized.deep_view() =~= head + seq!["--file"@, all[script_index as int]]);
    let ghost middle = normalized.deep_view();
    if n > script_index + 1 {
        let next = chars_of(args[script_index + 1].as_str());
        if !chars_eq_str(next.as_slice(), "--") {
            normalized.push(String::from_str("--"));
            assert(normalized.deep_view() =~= middle + seq!["--"@]);
        } else {
            assert(normalized.deep_view() =~= middle + Seq::<Seq<char>>::empty());
        }
        let ghost sep = normalized.deep_view();
        push_clones(&mut normalized, &args, script_index + 1, n);
        assert(all.subrange(script_index + 1, n as int) == all.skip(script_index + 1));
        assert(normalized.deep_view() =~= middle + script_tail(all, script_index as int));
    } else {
        assert(normalized.deep_view() =~= middle + script_tail(all, script_index as int));
    }
    NormalizedArgs { args: normalized, direct_script: true }
}

} // verus!

verus! {

/// Defaults for the command line, as read from the user's configuration.
#[derive(Clone, Debug, Default)]
pub struct CommandConfig {
    pub no_frontend: Option<bool>,
    pub no_color: Option<bool>,
    pub linkconnect: Option<bool>,
    pub linkname: Option<String>,
    pub linkprotocol: Option<String>,
    pub linkmode: Option<String>,
    pub linkoptions: Option<u32>,
    pub linkinit: Option<bool>,
}

/// The mathematical model of [`CommandConfig`].
pub struct CommandConfigView {
    pub no_frontend: Option<bool>,
    pub no_color: Option<bool>,
    pub linkconnect: Option<bool>,
    pub linkname: Option<Seq<char>>,
    pub linkprotocol: Option<Seq<char>>,
    pub linkmode: Option<Seq<char>>,
    pub linkoptions: Option<u32>,
    pub linkinit: Option<bool>,
}

impl View for CommandConfig {
    type V = CommandConfigView;

    open spec fn view(&self) -> CommandConfigView {
        CommandConfigView {
            no_frontend: self.no_frontend,
            no_color: self.no_color,
            linkconnect: self.linkconnect,
            linkname: self.linkname.deep_view(),
            linkprotocol: self.linkprotocol.deep_view(),
            linkmode: self.linkmode.deep_view(),
            linkoptions: self.linkoptions,
            linkinit: self.linkinit,
        }
    }
}

/// The user's configuration, as far as the command line is concerned.
#[derive(Clone, Debug, Default)]
pub struct UserConfig {
    pub command: CommandConfig,
}

/// A command line together with whether a script was given directly.
#[derive(Debug)]
pub struct ParsedArgs {
    pub args: Args,
    pub direct_script: bool,
}

/// How a script file was named: directly (as by a `#!` line) or with `--file`.
#[derive(Clone, Copy, Debug, PartialEq, Eq, Structural)]
pub enum ScriptInvocation {
    Direct,
    File,
}

/// The settings in force once the configuration was merged into the command line.
#[derive(Debug)]
pub struct EffectiveArgs {
    pub no_frontend: bool,
    pub no_color: bool,
    pub eval: Option<String>,
    pub link_connect: bool,
    pub link_name: Option<String>,
    pub link_protocol: LinkProtocol,
    pub link_options: Option<u32>,
    pub link_init: bool,
    pub link_mode: Option<String>,
    pub file: Option<String>,
    pub script_args: Vec<String>,
    pub script_invocation: ScriptInvocation,
}

/// The mathematical model of [`EffectiveArgs`].
pub struct EffectiveArgsView {
    pub no_frontend: bool,
    pub no_color: bool,
    pub eval: Option<Seq<char>>,
    pub link_connect: bool,
    pub link_name: Option<Seq<char>>,
    pub link_protocol: LinkProtocol,
    pub link_options: Option<u32>,
    pub link_init: bool,
    pub link_mode: Option<Seq<char>>,
    pub file: Option<Seq<char>>,
    pub script_args: Seq<Seq<char>>,
    pub script_invocation: ScriptInvocation,
}

impl View for EffectiveArgs {
    type V = EffectiveArgsView;

    open spec fn view(&self) -> EffectiveArgsView {
        EffectiveArgsView {
            no_frontend: self.no_frontend,
            no_color: self.no_color,
            eval: self.eval.deep_view(),
            link_connect: self.link_connect,
            link_name: self.link_name.deep_view(),
            link_protocol: self.link_protocol,
            link_options: self.link_options,
            link_init: self.link_init,
            link_mode: self.link_mode.deep_view(),
            file: self.file.deep_view(),
            script_args: self.script_args.deep_view(),
            script_invocation: self.script_invocation,
        }
    }
}

/// Why the settings cannot be used.
#[derive(Clone, Debug)]
pub enum CliError {
    LinkNameRequiresLinkConnect,
    LinkProtocolRequiresLinkConnect,
    LinkInitRequiresLinkConnect,
    LinkInitRequiresLinkOptionsFour,
    /// The configured link protocol is not recognised; the reason.
    InvalidConfigLinkProtocol(String),
    LinkConnectRequiresLinkName,
    EvalAndFile,
}

/// The mathematical model of [`CliError`].
pub enum CliErrorView {
    LinkNameRequiresLinkConnect,
    LinkProtocolRequiresLinkConnect,
    LinkInitRequiresLinkConnect,
    LinkInitRequiresLinkOptionsFour,
    InvalidConfigLinkProtocol(Seq<char>),
    LinkConnectRequiresLinkName,
    EvalAndFile,
}

impl View for CliError {
    type V = CliErrorView;

    open spec fn view(&self) -> CliErrorView {
        match self {
            CliError::LinkNameRequiresLinkConnect => CliErrorView::LinkNameRequiresLinkConnect,
            CliError::LinkProtocolRequiresLinkConnect => CliErrorView::LinkProtocolRequiresLinkConnect,
            CliError::LinkInitRequiresLinkConnect => CliErrorView::LinkInitRequiresLinkConnect,
            CliError::LinkInitRequiresLinkOptionsFour => CliErrorView::LinkInitRequiresLinkOptionsFour,
            CliError::InvalidConfigLinkProtocol(m) => CliErrorView::InvalidConfigLinkProtocol(m@),
            CliError::LinkConnectRequiresLinkName => CliErrorView::LinkConnectRequiresLinkName,
            CliError::EvalAndFile => CliErrorView::EvalAndFile,
        }
    }
}

/// The text shown for an error.
pub open spec fn cli_error_message(e: CliErrorView) -> Seq<char> {
    match e {
        CliErrorView::LinkNameRequiresLinkConnect => "--linkname requires --linkconnect"@,
        CliErrorView::LinkProtocolRequiresLinkConnect => "--linkprotocol requires --linkconnect"@,
        CliErrorView::LinkInitRequiresLinkConnect => "--linkinit requires --linkconnect"@,
        CliErrorView::LinkInitRequiresLinkOptionsFour => "--linkinit requires --linkoptions 4"@,
        CliErrorView::InvalidConfigLinkProtocol(m) => m,
        CliErrorView::LinkConnectRequiresLinkName => "--linkconnect requires --linkname <name>"@,
        CliErrorView::EvalAndFile => "use either --eval or a file, not both"@,
    }
}

impl CliError {
    /// The text shown for this error.
    pub fn message(&self) -> (r: String)
        ensures
            r@ == cli_error_message(self@),
    {
        match self {
            CliError::LinkNameRequiresLinkConnect => String::from_str(
                "--linkname requires --linkconnect",
            ),
            CliError::LinkProtocolRequiresLinkConnect => String::from_str(
                "--linkprotocol requires --linkconnect",
            ),
            CliError::LinkInitRequiresLinkConnect => String::from_str(
                "--linkinit requires --linkconnect",
            ),
            CliError::LinkInitRequiresLinkOptionsFour => String::from_str(
                "--linkinit requires --linkoptions 4",
            ),
            CliError::InvalidConfigLinkProtocol(m) => m.clone(),
            CliError::LinkConnectRequiresLinkName => String::from_str(
                "--linkconnect requires --linkname <name>",
            ),
            CliError::EvalAndFile => String::from_str("use either --eval or a file, not both"),
        }
    }
}

/// The first of two optional values that is present.
pub open spec fn or_else<T>(first: Option<T>, second: Option<T>) -> Option<T> {
    match first {
        Some(v) => Some(v),
        None => second,
    }
}

/// A configured switch, off when absent.
pub open spec fn switch_on(o: Option<bool>) -> bool {
    o == Some(true)
}

/// The settings in force: the command line wins over the configuration, and link settings
/// that only make sense for a connected kernel are refused without one.
pub open spec fn effective_settings(
    a: ArgsView,
    direct_script: bool,
    c: CommandConfigView,
) -> Result<EffectiveArgsView, CliErrorView> {
    let link_connect = a.link_connect || switch_on(c.linkconnect);
    let link_options = or_else(a.link_options, c.linkoptions);
    let link_init = a.link_init || switch_on(c.linkinit);
    if !link_connect && a.link_name is Some {
        Err(CliErrorView::LinkNameRequiresLinkConnect)
    } else if !link_connect && a.link_protocol is Some {
        Err(CliErrorView::LinkProtocolRequiresLinkConnect)
    } else if !link_connect && link_init {
        Err(CliErrorView::LinkInitRequiresLinkConnect)
    } else if link_init && link_options != Some(4u32) {
        Err(CliErrorView::LinkInitRequiresLinkOptionsFour)
    } else {
        let protocol: Result<LinkProtocol, Seq<char>> = if !link_connect {
            Ok(LinkProtocol::SharedMemory)
        } else {
            match (a.link_protocol, c.linkprotocol) {
                (Some(p), _) => Ok(p),
                (None, Some(name)) => link_protocol_of(name),
                (None, None) => Ok(LinkProtocol::SharedMemory),
            }
        };
        match protocol {
            Err(m) => Err(CliErrorView::InvalidConfigLinkProtocol(m)),
            Ok(link_protocol) => Ok(
                EffectiveArgsView {
                    no_frontend: a.no_frontend || switch_on(c.no_frontend),
                    no_color: a.no_color || switch_on(c.no_color),
                    eval: a.eval,
                    link_connect,
                    link_name: if link_connect { or_else(a.link_name, c.linkname) } else { None },
                    link_protocol,
                    link_options,
                    link_init,
                    link_mode: or_else(a.link_mode, c.linkmode),
                    file: a.file,
                    script_args: a.script_args,
                    script_invocation: if direct_script {
                        ScriptInvocation::Direct
                    } else {
                        ScriptInvocation::File
                    },
                },
            ),
        }
    }
}

/// The mathematical model of an outcome that carries a [`CliError`].
pub open spec fn cli_outcome<T: View>(r: Result<T, CliError>) -> Result<T::V, CliErrorView> {
    match r {
        Ok(v) => Ok(v@),
        Err(e) => Err(e@),
    }
}

fn either_text(first: Option<String>, second: Option<String>) -> (r: Option<String>)
    ensures
        r.deep_view() == or_else(first.deep_view(), second.deep_view()),
{
    match first {
        Some(v) => Some(v),
        None => second,
    }
}

fn configured(o: Option<bool>) -> (r: bool)
    ensures
        r == switch_on(o),
{
    match o {
        Some(b) => b,
        None => false,
    }
}

/// Merges the user's configuration into the command line.
pub fn effective_args(parsed: ParsedArgs, config: UserConfig) -> (r: Result<EffectiveArgs, CliError>)
    ensures
        cli_outcome(r) == effective_settings(parsed.args@, parsed.direct_script, config.command@),
{
    let ParsedArgs { args, direct_script } = parsed;
    let command = config.command;
    let link_connect = args.link_connect || configured(command.linkconnect);
    let link_options = match args.link_options {
        Some(n) => Some(n),
        None => command.linkoptions,
    };
    let link_init = args.link_init || configured(command.linkinit);

    if !link_connect {
        if args.link_name.is_some() {
            return Err(CliError::LinkNameRequiresLinkConnect);
        }
        if args.link_protocol.is_some() {
            return Err(CliError::LinkProtocolRequiresLinkConnect);
        }
        if link_init {
            return Err(CliError::LinkInitRequiresLinkConnect);
        }
    }
    if link_init && link_options != Some(4u32) {
        return Err(CliError::LinkInitRequiresLinkOptionsFour);
    }

    let link_protocol = if link_connect {
        match (args.link_protocol, &command.linkprotocol) {
            (Some(protocol), _) => protocol,
            (None, Some(name)) => match parse_link_protocol(name.as_str()) {
                Ok(p) => p,
                Err(m) => {
                    return Err(CliError::InvalidConfigLinkProtocol(m));
                },
            },
            (None, None) => LinkProtocol::SharedMemory,
        }
    } else {
        LinkProtocol::SharedMemory
    };

    let link_name = if link_connect {
        either_text(args.link_name, command.linkname)
    } else {
        None
    };
    Ok(
        EffectiveArgs {
            no_frontend: args.no_frontend || configured(command.no_frontend),
            no_color: args.no_color || configured(command.no_color),
            eval: args.eval,
            link_connect,
            link_name,
            link_protocol,
            link_options,
            link_init,
            link_mode: either_text(args.link_mode, command.linkmode),
            file: args.file,
            script_args: args.script_args,
            script_invocation: if direct_script {
                ScriptInvocation::Direct
            } else {
                ScriptInvocation::File
            },
        },
    )
}

/// How the kernel is reached: a link to connect to, or a kernel to launch.
#[derive(Clone, Debug)]
pub enum KernelConnection {
    Connect {
        link_name: String,
        link_protocol: LinkProtocol,
        link_options: Option<u32>,
        link_init_directory: Option<String>,
        link_mode: Option<String>,
    },
    Launch { link_options: Option<u32>, link_mode: Option<String> },
}

/// The mathematical model of [`KernelConnection`].
pub enum KernelConnectionView {
    Connect {
        link_name: Seq<char>,
        link_protocol: LinkProtocol,
        link_options: Option<u32>,
        link_init_directory: Option<Seq<char>>,
        link_mode: Option<Seq<char>>,
    },
    Launch { link_options: Option<u32>, link_mode: Option<Seq<char>> },
}

impl View for KernelConnection {
    type V = KernelConnectionView;

    open spec fn view(&self) -> KernelConnectionView {
        match self {
            KernelConnection::Connect {
                link_name,
                link_protocol,
                link_options,
                link_init_directory,
                link_mode,
            } => KernelConnectionView::Connect {
                link_name: link_name@,
                link_protocol: *link_protocol,
                link_options: *link_options,
                link_init_directory: link_init_directory.deep_view(),
                link_mode: link_mode.deep_view(),
            },
            KernelConnection::Launch { link_options, link_mode } => KernelConnectionView::Launch {
                link_options: *link_options,
                link_mode: link_mode.deep_view(),
            },
        }
    }
}

/// The connection that the settings ask for; a connected kernel needs a link name, and a
/// link name needs a connected kernel.
pub open spec fn connection_for(
    a: EffectiveArgsView,
    link_init_directory: Option<Seq<char>>,
) -> Result<KernelConnectionView, CliErrorView> {
    match (a.link_connect, a.link_name) {
        (true, Some(name)) => Ok(
            KernelConnectionView::Connect {
                link_name: name,
                link_protocol: a.link_protocol,
                link_options: a.link_options,
                link_init_directory,
                link_mode: a.link_mode,
            },
        ),
        (true, None) => Err(CliErrorView::LinkConnectRequiresLinkName),
        (false, Some(_)) => Err(CliErrorView::LinkNameRequiresLinkConnect),
        (false, None) => Ok(
            KernelConnectionView::Launch { link_options: a.link_options, link_mode: a.link_mode },
        ),
    }
}

fn clone_text(o: &Option<String>) -> (r: Option<String>)
    ensures
        r.deep_view() == o.deep_view(),
{
    match o {
        Some(s) => Some(s.clone()),
        None => None,
    }
}

/// Chooses how to reach the kernel.
pub fn kernel_connection(args: &EffectiveArgs, link_init_directory: Option<String>) -> (r: Result<
    KernelConnection,
    CliError,
>)
    ensures
        cli_outcome(r) == connection_for(args@, link_init_directory.deep_view()),
{
    match (args.link_connect, args.link_name.as_ref()) {
        (true, Some(link_name)) => Ok(
            KernelConnection::Connect {
                link_name: link_name.clone(),
                link_protocol: args.link_protocol,
                link_options: args.link_options,
                link_init_directory,
                link_mode: clone_text(&args.link_mode),
            },
        ),
        (true, None) => Err(CliError::LinkConnectRequiresLinkName),
        (false, Some(_)) => Err(CliError::LinkNameRequiresLinkConnect),
        (false, None) => Ok(
            KernelConnection::Launch {
                link_options: args.link_options,
                link_mode: clone_text(&args.link_mode),
            },
        ),
    }
}

/// What the program does once the settings are known.
#[derive(Clone, Debug)]
pub enum RunMode {
    /// Evaluate one expression and exit.
    Evaluate(String),
    /// Run a script file and exit.
    RunFile(String),
    /// Start the interactive session.
    Repl,
}

/// The mathematical model of [`RunMode`].
pub enum RunModeView {
    Evaluate(Seq<char>),
    RunFile(Seq<char>),
    Repl,
}

impl View for RunMode {
    type V = RunModeView;

    open spec fn view(&self) -> RunModeView {
        match self {
            RunMode::Evaluate(e) => RunModeView::Evaluate(e@),
            RunMode::RunFile(f) => RunModeView::RunFile(f@),
            RunMode::Repl => RunModeView::Repl,
        }
    }
}

/// The run mode: an expression, a file, or the interactive session; not both of the first two.
pub open spec fn run_mode_for(eval: Option<Seq<char>>, file: Option<Seq<char>>) -> Result<RunModeView, CliErrorView> {
    match (eval, file) {
        (Some(e), None) => Ok(RunModeView::Evaluate(e)),
        (None, Some(f)) => Ok(RunModeView::RunFile(f)),
        (None, None) => Ok(RunModeView::Repl),
        (Some(_), Some(_)) => Err(CliErrorView::EvalAndFile),
    }
}

/// Chooses what to run from `--eval` and the script file.
pub fn select_run_mode(eval: Option<String>, file: Option<String>) -> (r: Result<RunMode, CliError>)
    ensures
        cli_outcome(r) == run_mode_for(eval.deep_view(), file.deep_view()),
{
    match (eval, file) {
        (Some(e), None) => Ok(RunMode::Evaluate(e)),
        (None, Some(f)) => Ok(RunMode::RunFile(f)),
        (None, None) => Ok(RunMode::Repl),
        (Some(_), Some(_)) => Err(CliError::EvalAndFile),
    }
}

} // verus!
