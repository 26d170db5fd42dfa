//! Laws of the command line that span several functions.

use vstd::prelude::*;
use crate::cli;
use crate::text;
use crate::cli::{ArgsErrorView, ArgsView, CliOption, LinkProtocol, ParseModel};

verus! {

/// Arguments that the parse of a command line hands to the script, given where the
/// script stood: what followed it, without a leading `--`.
pub open spec fn script_arguments(args: Seq<Seq<char>>, i: int) -> Seq<Seq<char>> {
    if args.len() > i + 1 && args[i + 1] == "--"@ {
        args.skip(i + 2)
    } else {
        args.skip(i + 1)
    }
}

/// Parsing two pieces one after the other is parsing their concatenation.
pub proof fn lemma_parse_steps_append(m: ParseModel, s1: Seq<Seq<char>>, s2: Seq<Seq<char>>)
    ensures
        cli::parse_steps(m, s1 + s2) == match cli::parse_steps(m, s1) {
            Ok(m1) => cli::parse_steps(m1, s2),
            Err(e) => Err(e),
        },
    decreases s1.len(),
{
    if s1.len() == 0 {
        assert(s1 + s2 =~= s2);
    } else {
        assert((s1 + s2)[0] == s1[0]);
        assert((s1 + s2).drop_first() =~= s1.drop_first() + s2);
        match cli::parse_step(m, s1[0]) {
            Ok(next) => {
                lemma_parse_steps_append(next, s1.drop_first(), s2);
            },
            Err(_) => {},
        }
    }
}

/// After `--`, every argument goes to the script, in order.
pub proof fn lemma_trailing_steps(m: ParseModel, s: Seq<Seq<char>>)
    requires
        m.trailing,
    ensures
        cli::parse_steps(m, s) == Ok::<ParseModel, ArgsErrorView>(
            ParseModel {
                args: ArgsView { script_args: m.args.script_args + s, ..m.args },
                ..m
            },
        ),
    decreases s.len(),
{
    if s.len() == 0 {
        assert(m.args.script_args + s =~= m.args.script_args);
    } else {
        let next = ParseModel {
            args: ArgsView { script_args: m.args.script_args.push(s[0]), ..m.args },
            ..m
        };
        lemma_trailing_steps(next, s.drop_first());
        assert(m.args.script_args.push(s[0]) + s.drop_first() =~= m.args.script_args + s);
    }
}

/// A state between options before `--`: nothing waits for a value and no script argument was seen.
pub open spec fn between_options(m: ParseModel) -> bool {
    &&& !m.trailing
    &&& m.args.script_args.len() == 0
    &&& (m.pending is None || m.pending matches Some((_, Some(_))))
}

} // verus!

verus! {

proof fn lemma_find_char_absent(s: Seq<char>, c: char, from: int)
    requires
        0 <= from <= s.len(),
        forall|k: int| from <= k < s.len() ==> s[k] != c,
    ensures
        cli::find_char(s, c, from) == s.len(),
    decreases s.len() - from,
{
    if from < s.len() {
        lemma_find_char_absent(s, c, from + 1);
    }
}

/// The six options that wait for the next argument are exactly the long or short spellings
/// of the options that take a value, other than the file.
proof fn lemma_literals()
    ensures
        "--"@ == seq!['-', '-'],
        "-e"@ == seq!['-', 'e'],
        "-f"@ == seq!['-', 'f'],
        "--eval"@ == seq!['-', '-'] + "eval"@,
        "--linkname"@ == seq!['-', '-'] + "linkname"@,
        "--linkprotocol"@ == seq!['-', '-'] + "linkprotocol"@,
        "--linkoptions"@ == seq!['-', '-'] + "linkoptions"@,
        "--linkmode"@ == seq!['-', '-'] + "linkmode"@,
        "--file"@ == seq!['-', '-'] + "file"@,
        "file"@.len() == 4,
        forall|k: int| 0 <= k < 4 ==> "file"@[k] != '=',
{
    reveal_strlit("--");
    reveal_strlit("-e");
    reveal_strlit("-f");
    reveal_strlit("--eval");
    reveal_strlit("eval");
    reveal_strlit("--linkname");
    reveal_strlit("linkname");
    reveal_strlit("--linkprotocol");
    reveal_strlit("linkprotocol");
    reveal_strlit("--linkoptions");
    reveal_strlit("linkoptions");
    reveal_strlit("--linkmode");
    reveal_strlit("linkmode");
    reveal_strlit("--file");
    reveal_strlit("file");
    assert("--eval"@ =~= seq!['-', '-'] + "eval"@);
    assert("--linkname"@ =~= seq!['-', '-'] + "linkname"@);
    assert("--linkprotocol"@ =~= seq!['-', '-'] + "linkprotocol"@);
    assert("--linkoptions"@ =~= seq!['-', '-'] + "linkoptions"@);
    assert("--linkmode"@ =~= seq!['-', '-'] + "linkmode"@);
    assert("--file"@ =~= seq!['-', '-'] + "file"@);
    assert("--"@ =~= seq!['-', '-']);
    assert("-e"@ =~= seq!['-', 'e']);
    assert("-f"@ =~= seq!['-', 'f']);
}

/// A long option written without `=` is the option's name behind `--`.
proof fn lemma_long_without_value(a: Seq<char>)
    requires
        a.len() > 2,
        cli::find_char(a, '=', 2) == a.len(),
    ensures
        a == seq!['-', '-'] + a.subrange(2, a.len() as int) <== (a[0] == '-' && a[1] == '-'),
{
    if a[0] == '-' && a[1] == '-' {
        assert(a =~= seq!['-', '-'] + a.subrange(2, a.len() as int));
    }
}

/// The names of the options that take a value, and what `long_option` makes of them.
proof fn lemma_value_option_names()
    ensures
        cli::long_option("eval"@) == Some(CliOption::Eval),
        cli::long_option("linkname"@) == Some(CliOption::LinkName),
        cli::long_option("linkprotocol"@) == Some(CliOption::LinkProtocol),
        cli::long_option("linkoptions"@) == Some(CliOption::LinkOptions),
        cli::long_option("linkmode"@) == Some(CliOption::LinkMode),
        cli::long_option("file"@) == Some(CliOption::File),
        forall|k: int| 0 <= k < "eval"@.len() ==> "eval"@[k] != '=',
        forall|k: int| 0 <= k < "linkname"@.len() ==> "linkname"@[k] != '=',
        forall|k: int| 0 <= k < "linkprotocol"@.len() ==> "linkprotocol"@[k] != '=',
        forall|k: int| 0 <= k < "linkoptions"@.len() ==> "linkoptions"@[k] != '=',
        forall|k: int| 0 <= k < "linkmode"@.len() ==> "linkmode"@[k] != '=',
        "eval"@.len() > 0,
        "linkname"@.len() > 0,
        "linkprotocol"@.len() > 0,
        "linkoptions"@.len() > 0,
        "linkmode"@.len() > 0,
{
    reveal_strlit("no-frontend");
    reveal_strlit("no-color");
    reveal_strlit("eval");
    reveal_strlit("linkconnect");
    reveal_strlit("linkname");
    reveal_strlit("linkprotocol");
    reveal_strlit("linkoptions");
    reveal_strlit("linkinit");
    reveal_strlit("linkmode");
    reveal_strlit("file");
    assert("no-frontend"@.len() == 11 && "no-color"@.len() == 8 && "eval"@.len() == 4);
    assert("linkconnect"@.len() == 11 && "linkname"@.len() == 8 && "linkprotocol"@.len() == 12);
    assert("linkoptions"@.len() == 11 && "linkinit"@.len() == 8 && "linkmode"@.len() == 8);
    assert("file"@.len() == 4);
    assert("eval"@[0] != "file"@[0]);
    assert("linkname"@[4] != "no-color"@[4]);
    assert("linkinit"@[4] != "no-color"@[4]);
    assert("linkmode"@[4] != "no-color"@[4]);
    assert("linkmode"@[4] != "linkname"@[4]);
    assert("linkmode"@[4] != "linkinit"@[4]);
    assert("linkoptions"@[4] != "no-frontend"@[4]);
    assert("linkoptions"@[4] != "linkconnect"@[4]);
}

/// A long option that takes a value and is written without `=` leaves the parse waiting.
proof fn lemma_long_value_waits(m: ParseModel, a: Seq<char>, name: Seq<char>)
    requires
        between_options(m),
        a == seq!['-', '-'] + name,
        name.len() > 0,
        forall|k: int| 0 <= k < name.len() ==> name[k] != '=',
        cli::long_option(name) matches Some(o) && cli::takes_value(o),
    ensures
        cli::parse_step(m, a) matches Ok(m2) ==> {
            &&& !m2.trailing
            &&& m2.args.script_args.len() == 0
            &&& m2.pending matches Some((_, None))
        },
{
    assert(forall|k: int| 2 <= k < a.len() ==> a[k] == name[k - 2]);
    lemma_find_char_absent(a, '=', 2);
    assert(a.subrange(2, a.len() as int) =~= name);
    assert(a != seq!['-', '-']);
}

/// An option that waits for the next argument leaves the parse waiting for a value.
proof fn lemma_value_option_waits(m: ParseModel, a: Seq<char>)
    requires
        between_options(m),
        cli::consumes_next(a),
    ensures
        cli::parse_step(m, a) matches Ok(m2) ==> {
            &&& !m2.trailing
            &&& m2.args.script_args.len() == 0
            &&& m2.pending matches Some((_, None))
        },
{
    lemma_literals();
    lemma_value_option_names();
    if a == "-e"@ {
        assert(a.subrange(2, a.len() as int) =~= Seq::<char>::empty());
        assert(a != seq!['-', '-']);
    } else if a == "--eval"@ {
        lemma_long_value_waits(m, a, "eval"@);
    } else if a == "--linkname"@ {
        lemma_long_value_waits(m, a, "linkname"@);
    } else if a == "--linkprotocol"@ {
        lemma_long_value_waits(m, a, "linkprotocol"@);
    } else if a == "--linkoptions"@ {
        lemma_long_value_waits(m, a, "linkoptions"@);
    } else {
        lemma_long_value_waits(m, a, "linkmode"@);
    }
}

/// While an option waits for its value, the next argument is that value or the parse fails.
proof fn lemma_value_after_waiting(m: ParseModel, a: Seq<char>)
    requires
        !m.trailing,
        m.pending matches Some((_, None)),
    ensures
        cli::parse_step(m, a) matches Ok(m2) ==> (m.pending matches Some((o, _)) && m2 == (
        ParseModel { pending: Some((o, Some(a))), ..m })),
{
}

proof fn lemma_find_char_bounds(s: Seq<char>, c: char, from: int)
    requires
        0 <= from <= s.len(),
    ensures
        from <= cli::find_char(s, c, from) <= s.len(),
        cli::find_char(s, c, from) < s.len() ==> s[cli::find_char(s, c, from)] == c,
    decreases s.len() - from,
{
    if from < s.len() && s[from] != c {
        lemma_find_char_bounds(s, c, from + 1);
    }
}

/// Any other option before the script keeps the parse between options.
proof fn lemma_other_option_keeps(m: ParseModel, a: Seq<char>)
    requires
        between_options(m),
        !cli::consumes_next(a),
        !cli::names_file(a),
        a.len() > 0,
        a[0] == '-',
    ensures
        cli::parse_step(m, a) matches Ok(m2) ==> between_options(m2),
{
    lemma_literals();
    if a.len() == 2 && a[1] == '-' {
        assert(a =~= "--"@);
    } else if a.len() > 2 && a[1] == '-' {
        assert(a != seq!['-', '-']);
        lemma_find_char_bounds(a, '=', 2);
        let eq = cli::find_char(a, '=', 2);
        let name = a.subrange(2, eq);
        if let Some(o) = cli::long_option(name) {
            if cli::takes_value(o) && eq == a.len() {
                lemma_long_without_value(a);
                assert(a == seq!['-', '-'] + name);
                assert(false);
            }
        }
    } else if a.len() > 1 {
        assert(a != seq!['-', '-']);
        let c = a[1];
        let rest = a.subrange(2, a.len() as int);
        if a.len() == 2 {
            assert(rest =~= Seq::<char>::empty());
            assert(a =~= seq!['-', c]);
        }
    } else {
        assert(a != seq!['-', '-']);
    }
}

/// Walking the options before a directly given script keeps the parse between options.
proof fn lemma_walk_prefix(args: Seq<Seq<char>>, j: int, m: ParseModel)
    requires
        1 <= j,
        cli::direct_script_from(args, j) is Some,
        between_options(m),
    ensures
        cli::parse_steps(m, args.subrange(j, cli::direct_script_from(args, j)->0)) matches Ok(m1)
            ==> between_options(m1),
    decreases args.len() + 2 - j,
{
    cli::lemma_direct_script_in_range(args, j);
    let i = cli::direct_script_from(args, j)->0;
    reveal_with_fuel(cli::parse_steps, 3);
    if j == i {
        assert(args.subrange(j, i) =~= Seq::<Seq<char>>::empty());
    } else if cli::consumes_next(args[j]) {
        assert(!cli::names_file(args[j]));
        assert(cli::direct_script_from(args, j + 2) == Some(i));
        cli::lemma_direct_script_in_range(args, j + 2);
        let pair = seq![args[j], args[j + 1]];
        let rest = args.subrange(j + 2, i);
        assert(args.subrange(j, i) =~= pair + rest);
        lemma_parse_steps_append(m, pair, rest);
        lemma_value_option_waits(m, args[j]);
        assert(pair.drop_first() =~= seq![args[j + 1]]);
        assert(seq![args[j + 1]].drop_first() =~= Seq::<Seq<char>>::empty());
        if let Ok(m2) = cli::parse_step(m, args[j]) {
            lemma_value_after_waiting(m2, args[j + 1]);
            if let Ok(m3) = cli::parse_step(m2, args[j + 1]) {
                assert(cli::parse_steps(m, pair) == Ok::<ParseModel, ArgsErrorView>(m3));
                assert(between_options(m3));
                lemma_walk_prefix(args, j + 2, m3);
            } else {
                assert(cli::parse_steps(m, pair) is Err);
            }
        } else {
            assert(cli::parse_steps(m, pair) is Err);
        }
    } else {
        assert(!cli::names_file(args[j]));
        assert(args[j].len() > 0 && args[j][0] == '-');
        assert(cli::direct_script_from(args, j + 1) == Some(i));
        let one = seq![args[j]];
        let rest = args.subrange(j + 1, i);
        assert(args.subrange(j, i) =~= one + rest);
        lemma_parse_steps_append(m, one, rest);
        assert(one.drop_first() =~= Seq::<Seq<char>>::empty());
        lemma_other_option_keeps(m, args[j]);
        if let Ok(m2) = cli::parse_step(m, args[j]) {
            assert(cli::parse_steps(m, one) == Ok::<ParseModel, ArgsErrorView>(m2));
            lemma_walk_prefix(args, j + 1, m2);
        } else {
            assert(cli::parse_steps(m, one) is Err);
        }
    }
}

} // verus!

verus! {

/// After the options, `--file` waits for the script's name.
proof fn lemma_file_option_waits(m: ParseModel)
    requires
        between_options(m),
    ensures
        cli::parse_step(m, "--file"@) matches Ok(m2) ==> {
            &&& !m2.trailing
            &&& m2.args.script_args.len() == 0
            &&& m2.pending == Some((CliOption::File, None::<Seq<char>>))
        },
{
    lemma_literals();
    lemma_value_option_names();
    reveal_strlit("file");
    assert(forall|k: int| 0 <= k < "file"@.len() ==> "file"@[k] != '=');
    lemma_long_value_waits(m, "--file"@, "file"@);
    let a = "--file"@;
    assert(forall|k: int| 2 <= k < a.len() ==> a[k] == "file"@[k - 2]);
    lemma_find_char_absent(a, '=', 2);
    assert(a.subrange(2, a.len() as int) =~= "file"@);
}

/// A script given directly, as a `#!` line does, reaches the parse of the rewritten command line
/// as the script file, and what followed it (after a `--`, if one was written) as its arguments.
pub proof fn law_direct_script_reaches_file(args: Seq<Seq<char>>)
    requires
        cli::direct_script_from(args, 1) is Some,
        cli::parse_command_line(cli::normalized_command_line(args)) is Ok,
    ensures
        ({
            let i = cli::direct_script_from(args, 1)->0;
            let a = cli::parse_command_line(cli::normalized_command_line(args))->Ok_0;
            &&& a.file == Some(args[i])
            &&& a.script_args == script_arguments(args, i)
        }),
{
    cli::lemma_direct_script_in_range(args, 1);
    lemma_literals();
    let i = cli::direct_script_from(args, 1)->0;
    let n = cli::normalized_command_line(args);
    let prefix = args.subrange(1, i);
    let tail = cli::script_tail(args, i);
    let script = args[i];
    let mid = seq!["--file"@, script];
    assert(n.drop_first() =~= prefix + (mid + tail));
    let init = cli::initial_parse();
    assert(init.args.script_args =~= Seq::<Seq<char>>::empty());
    lemma_parse_steps_append(init, prefix, mid + tail);
    lemma_walk_prefix(args, 1, init);
    let m1 = cli::parse_steps(init, prefix)->Ok_0;
    lemma_parse_steps_append(m1, mid, tail);
    reveal_with_fuel(cli::parse_steps, 3);
    assert(mid.drop_first() =~= seq![script]);
    assert(seq![script].drop_first() =~= Seq::<Seq<char>>::empty());
    lemma_file_option_waits(m1);
    let m2 = cli::parse_step(m1, "--file"@)->Ok_0;
    assert(!(script.len() > 0 && script[0] == '-'));
    assert(script != seq!['-', '-']);
    lemma_value_after_waiting(m2, script);
    let m3 = cli::parse_step(m2, script)->Ok_0;
    assert(cli::parse_steps(m1, mid) == Ok::<ParseModel, ArgsErrorView>(m3));
    assert(m3.pending == Some((CliOption::File, Some(script))));
    if args.len() > i + 1 {
        let rest = if args[i + 1] == "--"@ { args.skip(i + 2) } else { args.skip(i + 1) };
        assert(tail =~= seq!["--"@] + rest) by {
            if args[i + 1] == "--"@ {
                assert(args.skip(i + 1) =~= seq!["--"@] + args.skip(i + 2));
            }
        }
        lemma_parse_steps_append(m3, seq!["--"@], rest);
        assert(seq!["--"@].drop_first() =~= Seq::<Seq<char>>::empty());
        let m4 = cli::parse_step(m3, "--"@)->Ok_0;
        assert(cli::parse_steps(m3, seq!["--"@]) == Ok::<ParseModel, ArgsErrorView>(m4));
        assert(m4.trailing && m4.pending is None);
        assert(m4.args.file == Some(script));
        lemma_trailing_steps(m4, rest);
        assert(m4.args.script_args =~= Seq::<Seq<char>>::empty());
        assert(m4.args.script_args + rest =~= rest);
    } else {
        assert(tail =~= Seq::<Seq<char>>::empty());
        assert(args.skip(i + 1) =~= Seq::<Seq<char>>::empty());
    }
}

} // verus!

verus! {

/// A setting given on the command line wins over the configuration: the link protocol (when
/// connecting), the link name (when connecting), the link mode and the link options.
pub proof fn law_command_line_overrides_config(a: ArgsView, direct_script: bool, c: cli::CommandConfigView)
    requires
        cli::effective_settings(a, direct_script, c) is Ok,
    ensures
        ({
            let e = cli::effective_settings(a, direct_script, c)->Ok_0;
            &&& (a.link_protocol matches Some(p) ==> e.link_protocol == p)
            &&& (a.link_name is Some ==> e.link_name == a.link_name)
            &&& (a.link_mode is Some ==> e.link_mode == a.link_mode)
            &&& (a.link_options is Some ==> e.link_options == a.link_options)
        }),
{
}

/// Without a connected kernel, the link protocol is shared memory and no link name is used,
/// whatever the configuration says.
pub proof fn law_launch_ignores_link_settings(a: ArgsView, direct_script: bool, c: cli::CommandConfigView)
    requires
        cli::effective_settings(a, direct_script, c) matches Ok(e) && !e.link_connect,
    ensures
        ({
            let e = cli::effective_settings(a, direct_script, c)->Ok_0;
            &&& e.link_protocol == LinkProtocol::SharedMemory
            &&& e.link_name is None
            &&& !e.link_init
        }),
{
}

/// Settings that are accepted with `--linkinit` connect to a kernel with link options 4.
pub proof fn law_link_init_needs_connection_and_options(a: ArgsView, direct_script: bool, c: cli::CommandConfigView)
    requires
        cli::effective_settings(a, direct_script, c) matches Ok(e) && e.link_init,
    ensures
        ({
            let e = cli::effective_settings(a, direct_script, c)->Ok_0;
            e.link_connect && e.link_options == Some(4u32)
        }),
{
}

/// The kernel is connected to exactly when the settings ask for a connected kernel, and then
/// under the link name that the settings give.
pub proof fn law_connection_follows_settings(e: cli::EffectiveArgsView, dir: Option<Seq<char>>)
    requires
        cli::connection_for(e, dir) is Ok,
    ensures
        (cli::connection_for(e, dir)->Ok_0 is Connect) == e.link_connect,
        cli::connection_for(e, dir)->Ok_0 matches cli::KernelConnectionView::Connect { link_name, .. }
            ==> e.link_name == Some(link_name),
{
}

/// Link protocol names are read without regard to ASCII case: a name and its lower-case
/// form are read alike.
pub proof fn law_link_protocol_ignores_case(value: Seq<char>)
    ensures
        cli::link_protocol_of(value) is Ok <==> cli::link_protocol_of(text::ascii_lowercase(value)) is Ok,
        cli::link_protocol_of(value) is Ok ==> cli::link_protocol_of(value) == cli::link_protocol_of(
            text::ascii_lowercase(value),
        ),
{
    let lower = text::ascii_lowercase(value);
    assert forall|i: int| 0 <= i < lower.len() implies text::ascii_lower_char(lower[i]) == lower[i] by {
        let c = value[i];
        if 'A' <= c && c <= 'Z' {
            assert(('a' as u32) <= ((c as u32) + 32) <= ('z' as u32));
        }
    }
    assert(text::ascii_lowercase(lower) =~= lower);
}

} // verus!

verus! {

/// Where the command line is silent, the configuration applies: its switches, its link mode and
/// link options, and (when connecting) its link name.
pub proof fn law_config_fills_absent_settings(a: ArgsView, direct_script: bool, c: cli::CommandConfigView)
    requires
        cli::effective_settings(a, direct_script, c) is Ok,
    ensures
        ({
            let e = cli::effective_settings(a, direct_script, c)->Ok_0;
            &&& (c.no_frontend == Some(true) ==> e.no_frontend)
            &&& (c.no_color == Some(true) ==> e.no_color)
            &&& (c.linkconnect == Some(true) ==> e.link_connect)
            &&& (a.link_mode is None ==> e.link_mode == c.linkmode)
            &&& (a.link_options is None ==> e.link_options == c.linkoptions)
            &&& (a.link_name is None && e.link_connect ==> e.link_name == c.linkname)
        }),
{
}

/// A connected kernel without a link name is refused, and so is a link name without one.
pub proof fn law_connection_needs_matching_name(e: cli::EffectiveArgsView, dir: Option<Seq<char>>)
    ensures
        e.link_connect && e.link_name is None ==> cli::connection_for(e, dir) == Err::<
            cli::KernelConnectionView,
            cli::CliErrorView,
        >(cli::CliErrorView::LinkConnectRequiresLinkName),
        !e.link_connect && e.link_name is Some ==> cli::connection_for(e, dir) == Err::<
            cli::KernelConnectionView,
            cli::CliErrorView,
        >(cli::CliErrorView::LinkNameRequiresLinkConnect),
{
}

} // verus!

verus! {

/// The search for a directly given script, run over a command line that agrees with `args`
/// before position `i` and holds `--file` at `i`, stops at `--file` and finds no script.
proof fn lemma_search_stops_at_file(args: Seq<Seq<char>>, n: Seq<Seq<char>>, i: int, j: int)
    requires
        1 <= j <= i < n.len(),
        cli::direct_script_from(args, j) == Some(i),
        n[i] == "--file"@,
        forall|k: int| 0 <= k < i ==> n[k] == args[k],
    ensures
        cli::direct_script_from(n, j) is None,
    decreases i - j,
{
    if j == i {
        assert(cli::names_file(n[i]));
    } else {
        assert(n[j] == args[j]);
        if cli::consumes_next(args[j]) {
            cli::lemma_direct_script_in_range(args, j + 2);
            lemma_search_stops_at_file(args, n, i, j + 2);
        } else {
            cli::lemma_direct_script_in_range(args, j + 1);
            lemma_search_stops_at_file(args, n, i, j + 1);
        }
    }
}

/// Normalizing a command line that was already normalized changes nothing, and the second pass
/// finds no directly given script.
pub proof fn law_normalizing_twice_changes_nothing(args: Seq<Seq<char>>)
    ensures
        cli::direct_script_from(cli::normalized_command_line(args), 1) is None,
        cli::normalized_command_line(cli::normalized_command_line(args)) == cli::normalized_command_line(
            args,
        ),
{
    let n = cli::normalized_command_line(args);
    if let Some(i) = cli::direct_script_from(args, 1) {
        cli::lemma_direct_script_in_range(args, 1);
        assert(n[i] == "--file"@);
        lemma_search_stops_at_file(args, n, i, 1);
    }
}

} // verus!

verus! {

/// The merge with the configuration passes on what the command line asks to run: whenever it
/// succeeds, the expression to evaluate, the script file and the script's arguments are the
/// command line's own, and the script counts as given directly exactly when it was.
pub proof fn law_merge_keeps_what_to_run(a: ArgsView, direct_script: bool, c: cli::CommandConfigView)
    requires
        cli::effective_settings(a, direct_script, c) is Ok,
    ensures
        ({
            let e = cli::effective_settings(a, direct_script, c)->Ok_0;
            &&& e.eval == a.eval
            &&& e.file == a.file
            &&& e.script_args == a.script_args
            &&& (e.script_invocation == cli::ScriptInvocation::Direct) == direct_script
        }),
{
}

/// A command line without link settings, under a configuration without them, always merges,
/// and keeps its expression, file and script arguments.
pub proof fn law_merge_without_link_settings_succeeds(a: ArgsView, direct_script: bool, c: cli::CommandConfigView)
    requires
        !a.link_connect,
        !a.link_init,
        a.link_name is None,
        a.link_protocol is None,
        c.linkconnect != Some(true),
        c.linkinit != Some(true),
    ensures
        cli::effective_settings(a, direct_script, c) is Ok,
        cli::effective_settings(a, direct_script, c)->Ok_0.eval == a.eval,
        cli::effective_settings(a, direct_script, c)->Ok_0.file == a.file,
{
}

} // verus!
