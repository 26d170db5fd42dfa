use wolfie::graphical_output::{
    backend_programs, executable_names, is_executable, Backend, CreateOutcome, CreateStep,
    DisplayStep, GraphicalOutputBackend, TemporarySvg, TEMPORARY_SVG_ATTEMPTS,
};

#[test]
fn detects_backends_in_priority_order() {
    let directory = "/tmp/wolfie-graphical-output-test";
    let found = vec![
        Some(format!("{directory}/kitten")),
        None,
        None,
        Some(format!("{directory}/chafa")),
    ];
    let backends = GraphicalOutputBackend::from_found(found).unwrap().candidates;
    assert!(matches!(backends.first(), Some(Backend::Kitten(_))));
    assert!(matches!(backends.get(1), Some(Backend::Chafa(_))));
}

#[test]
fn no_backend_without_programs() {
    assert!(GraphicalOutputBackend::from_found(vec![None, None, None, None]).is_none());
    assert_eq!(backend_programs(), vec!["kitten", "kitty", "wezterm", "chafa"]);
}

#[test]
fn falls_through_when_an_earlier_backend_fails() {
    let backend = GraphicalOutputBackend {
        candidates: vec![
            Backend::Kitten("/bin/fails".into()),
            Backend::Chafa("/bin/succeeds".into()),
        ],
    };
    let mut outcomes: Vec<Result<(), String>> = Vec::new();
    assert!(matches!(backend.display_svg(&outcomes), DisplayStep::Try(0)));
    outcomes.push(Err("exited with exit status: 1".into()));
    assert!(matches!(backend.display_svg(&outcomes), DisplayStep::Try(1)));
    outcomes.push(Ok(()));
    assert!(matches!(backend.display_svg(&outcomes), DisplayStep::Displayed));
}

#[test]
fn reports_every_failure() {
    let backend = GraphicalOutputBackend {
        candidates: vec![
            Backend::Kitty("/bin/kitty".into()),
            Backend::WezTerm("/bin/wezterm".into()),
        ],
    };
    let outcomes: Vec<Result<(), String>> = vec![Err("a".into()), Err("b".into())];
    match backend.display_svg(&outcomes) {
        DisplayStep::Failed(report) => {
            assert_eq!(report, "kitty +kitten icat: a; wezterm imgcat: b")
        }
        _ => panic!("expected a failure"),
    }
}

#[test]
fn viewers_are_started_with_their_arguments() {
    let (program, args) = Backend::Kitty("/usr/bin/kitty".into()).display_command("/tmp/x.svg");
    assert_eq!(program, "/usr/bin/kitty");
    assert_eq!(args, vec!["+kitten", "icat", "--stdin=no", "/tmp/x.svg"]);
    let (_, args) = Backend::Chafa("chafa".into()).display_command("/tmp/x.svg");
    assert_eq!(args, vec!["/tmp/x.svg"]);
    assert_eq!(Backend::Kitten("k".into()).name(), "kitten icat");
}

#[test]
fn executables_need_an_execute_bit() {
    assert!(is_executable(true, 0o700));
    assert!(is_executable(true, 0o001));
    assert!(!is_executable(true, 0o644));
    assert!(!is_executable(false, 0o755));
}

#[test]
fn executable_names_follow_pathext() {
    assert_eq!(
        executable_names("chafa", None),
        vec!["chafa", "chafa.COM", "chafa.EXE", "chafa.BAT", "chafa.CMD"]
    );
    assert_eq!(
        executable_names("kitty", Some(";.EXE;;.PS1;".to_string())),
        vec!["kitty", "kitty.EXE", "kitty.PS1"]
    );
    assert_eq!(executable_names("x", Some(String::new())), vec!["x"]);
}

#[test]
fn temporary_svg_names_are_numbered() {
    assert_eq!(TemporarySvg::file_name(42, 1234567890123, 7), "wolfie-42-1234567890123-7.svg");
    assert_eq!(TEMPORARY_SVG_ATTEMPTS, 100);
    let file = TemporarySvg::new("/tmp/a.svg".to_string());
    assert_eq!(file.path(), "/tmp/a.svg");
}

#[test]
fn temporary_svg_names_are_retried_while_taken() {
    assert_eq!(TemporarySvg::create_step(&vec![]), CreateStep::Try(0));
    let mut outcomes = vec![CreateOutcome::AlreadyExists];
    assert_eq!(TemporarySvg::create_step(&outcomes), CreateStep::Try(1));
    outcomes.push(CreateOutcome::Created);
    assert_eq!(TemporarySvg::create_step(&outcomes), CreateStep::Created);
    let failed = vec![CreateOutcome::AlreadyExists, CreateOutcome::Failed];
    assert_eq!(TemporarySvg::create_step(&failed), CreateStep::Failed);
    let taken = vec![CreateOutcome::AlreadyExists; 99];
    assert_eq!(TemporarySvg::create_step(&taken), CreateStep::Try(99));
    let taken = vec![CreateOutcome::AlreadyExists; 100];
    assert_eq!(TemporarySvg::create_step(&taken), CreateStep::Exhausted);
    assert_eq!(TEMPORARY_SVG_ATTEMPTS, 100);
}
