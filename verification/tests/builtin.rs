use rshell::builtin::{Builtin, Error, ErrorKind};
use rshell::host::{Report, Request, Step};
use rshell::shell::Environment;
use rshell::{Aliases, Shell};

fn argv(words: &[&str]) -> Vec<String> {
    words.iter().map(|word| word.to_string()).collect()
}

fn shell_in(variables: &[(&str, &str)]) -> Shell {
    let mut environment = Environment::new();
    for (name, value) in variables {
        environment.set(name.to_string(), value.to_string());
    }
    Shell::new(environment)
}

fn done(step: Step) -> Report {
    match step {
        Step::Done(report) => report,
        Step::Ask(request) => panic!("{:?}", request),
    }
}

fn asked(step: Step) -> Request {
    match step {
        Step::Ask(request) => request,
        Step::Done(report) => panic!("{:?}", report),
    }
}

fn assert_report(report: &Report, code: Option<i32>, out: &[&str], err: &[&str]) {
    assert_eq!(report.code, code);
    assert_eq!(report.out, argv(out));
    assert_eq!(report.err, argv(err));
}

#[test]
fn builtins_go_by_their_names() {
    assert_eq!(Builtin::from_str("alias"), Ok(Builtin::Alias));
    assert_eq!(Builtin::from_str("builtin"), Ok(Builtin::Builtin));
    assert_eq!(Builtin::from_str("cd"), Ok(Builtin::Cd));
    assert_eq!(Builtin::from_str("chdir"), Ok(Builtin::Cd));
    assert_eq!(Builtin::from_str("echo"), Ok(Builtin::Echo));
    assert_eq!(Builtin::from_str("exit"), Ok(Builtin::Exit));
    assert_eq!(Builtin::from_str("bye"), Ok(Builtin::Exit));
    assert_eq!(Builtin::from_str("history"), Ok(Builtin::History));
    assert_eq!(Builtin::from_str("pwd"), Ok(Builtin::Pwd));
}

#[test]
fn other_names_are_no_builtins() {
    for name in ["", "ls", "Echo", "echo ", "cdd", "c", "ALIAS", "exit0"] {
        assert_eq!(Builtin::from_str(name), Err(name.to_string()));
    }
}

#[test]
fn echo_prints_its_arguments_with_spaces_between() {
    assert_report(&Builtin::echo(&argv(&["echo", "a", "b", "c"])), Some(0), &["a b c"], &[]);
    assert_report(&Builtin::echo(&argv(&["echo", "one"])), Some(0), &["one"], &[]);
    assert_report(&Builtin::echo(&argv(&["echo", "", "x", ""])), Some(0), &[" x "], &[]);
}

#[test]
fn echo_without_arguments_prints_an_empty_line() {
    assert_report(&Builtin::echo(&argv(&["echo"])), Some(0), &[""], &[]);
    assert_report(&Builtin::echo(&argv(&[])), Some(0), &[""], &[]);
}

#[test]
fn exit_reads_its_first_argument() {
    assert_eq!(Builtin::exit(&argv(&["exit", "3"])), 3);
    assert_eq!(Builtin::exit(&argv(&["bye", "42", "7"])), 42);
    assert_eq!(Builtin::exit(&argv(&["exit", "-5"])), -5);
    assert_eq!(Builtin::exit(&argv(&["exit", "+7"])), 7);
    assert_eq!(Builtin::exit(&argv(&["exit", "007"])), 7);
    assert_eq!(Builtin::exit(&argv(&["exit", "2147483647"])), 2147483647);
    assert_eq!(Builtin::exit(&argv(&["exit", "-2147483648"])), -2147483648);
}

#[test]
fn exit_falls_back_to_zero() {
    assert_eq!(Builtin::exit(&argv(&["exit", "notanumber"])), 0);
    assert_eq!(Builtin::exit(&argv(&["exit"])), 0);
    assert_eq!(Builtin::exit(&argv(&[])), 0);
    for word in [
        "", "-", "+", " 1", "1 ", "1a", "0x10", "1_000", "--1", "+-1", "1.0", "2147483648",
        "-2147483649", "99999999999999999999", "\u{663}",
    ] {
        assert_eq!(Builtin::exit(&argv(&["exit", word])), 0);
    }
}

#[test]
fn exit_asks_for_the_end_of_the_process() {
    let mut shell = shell_in(&[]);
    let step = Builtin::run(&argv(&["exit", "notanumber"]), &mut shell).unwrap();
    assert!(matches!(asked(step), Request::Exit { code: 0 }));
    let step = Builtin::run(&argv(&["bye", "9"]), &mut shell).unwrap();
    assert!(matches!(asked(step), Request::Exit { code: 9 }));
}

#[test]
fn alias_sets_shows_and_lists() {
    let mut aliases = Aliases::new();
    assert_report(&Builtin::alias(&argv(&["alias"]), &mut aliases), Some(0), &[], &[]);
    assert_report(
        &Builtin::alias(&argv(&["alias", "ll=ls -la"]), &mut aliases),
        Some(0),
        &[],
        &[],
    );
    assert_eq!(aliases.get("ll"), Some(&"ls -la".to_string()));
    assert_report(
        &Builtin::alias(&argv(&["alias", "ll"]), &mut aliases),
        Some(0),
        &["ll='ls -la'"],
        &[],
    );
    assert_report(
        &Builtin::alias(&argv(&["alias", "g=git"]), &mut aliases),
        Some(0),
        &[],
        &[],
    );
    assert_report(
        &Builtin::alias(&argv(&["alias"]), &mut aliases),
        Some(0),
        &["ll='ls -la'", "g='git'"],
        &[],
    );
}

#[test]
fn alias_takes_one_pair_of_quotes_from_the_value() {
    let mut aliases = Aliases::new();
    for (word, value) in [
        ("a=\"ls -la\"", "ls -la"),
        ("b='x y'", "x y"),
        ("c=\"\"q\"\"", "\"q\""),
        ("d=\"x'", "\"x'"),
        ("e=\"", "\""),
        ("f=\"\"", ""),
        ("g=", ""),
        ("h=x=y", "x=y"),
        ("i=x\"", "x\""),
    ] {
        assert_report(&Builtin::alias(&argv(&["alias", word]), &mut aliases), Some(0), &[], &[]);
        let name = &word[..1];
        assert_eq!(aliases.get(name), Some(&value.to_string()));
    }
}

#[test]
fn alias_overwrites_where_the_name_stands() {
    let mut aliases = Aliases::new();
    let _ = Builtin::alias(&argv(&["alias", "a=1"]), &mut aliases);
    let _ = Builtin::alias(&argv(&["alias", "b=2"]), &mut aliases);
    let _ = Builtin::alias(&argv(&["alias", "a=3"]), &mut aliases);
    assert_report(
        &Builtin::alias(&argv(&["alias"]), &mut aliases),
        Some(0),
        &["a='3'", "b='2'"],
        &[],
    );
    assert_eq!(aliases.len(), 2);
}

#[test]
fn alias_with_an_empty_name() {
    let mut aliases = Aliases::new();
    assert_report(&Builtin::alias(&argv(&["alias", "=v"]), &mut aliases), Some(0), &[], &[]);
    assert_eq!(aliases.get(""), Some(&"v".to_string()));
}

#[test]
fn alias_of_an_unknown_name_fails_with_two() {
    let mut aliases = Aliases::new();
    assert_report(
        &Builtin::alias(&argv(&["alias", "nope"]), &mut aliases),
        Some(2),
        &[],
        &["alias: nope not found"],
    );
    assert_eq!(aliases.len(), 0);
}

#[test]
fn alias_with_too_many_arguments_fails_with_three() {
    let mut aliases = Aliases::new();
    assert_report(
        &Builtin::alias(&argv(&["alias", "ll=ls", "-la"]), &mut aliases),
        Some(3),
        &[],
        &["alias: too many arguments"],
    );
    assert_eq!(aliases.len(), 0);
}

#[test]
fn cd_without_argument_goes_home() {
    let environment = shell_in(&[("HOME", "/home/alice")]).environment;
    match asked(Builtin::cd(&argv(&["cd"]), &environment)) {
        Request::ChangeDirectory { path } => assert_eq!(path, "/home/alice"),
        other => panic!("{:?}", other),
    }
}

#[test]
fn cd_without_argument_and_home_goes_to_the_root() {
    let environment = Environment::new();
    match asked(Builtin::cd(&argv(&["chdir"]), &environment)) {
        Request::ChangeDirectory { path } => assert_eq!(path, "/"),
        other => panic!("{:?}", other),
    }
}

#[test]
fn cd_with_one_argument_goes_there() {
    let environment = shell_in(&[("HOME", "/home/alice")]).environment;
    match asked(Builtin::cd(&argv(&["cd", "/does/not/exist"]), &environment)) {
        Request::ChangeDirectory { path } => assert_eq!(path, "/does/not/exist"),
        other => panic!("{:?}", other),
    }
    match asked(Builtin::cd(&argv(&["cd", "rel ative"]), &environment)) {
        Request::ChangeDirectory { path } => assert_eq!(path, "rel ative"),
        other => panic!("{:?}", other),
    }
}

#[test]
fn cd_with_arguments_that_clap_refuses_fails_with_one() {
    let environment = shell_in(&[("HOME", "/home/alice")]).environment;
    for words in [&["cd", "a", "b"][..], &["cd", "--bogus"][..]] {
        assert_report(
            &done(Builtin::cd(&argv(words), &environment)),
            Some(1),
            &[],
            &["cd: invalid args\n\nUsage: cd [PATH]"],
        );
    }
}

#[test]
fn cd_plan_follows_what_was_parsed() {
    let environment = shell_in(&[("HOME", "/h")]).environment;
    assert_report(
        &done(Builtin::cd_plan(None, &environment)),
        Some(1),
        &[],
        &["cd: invalid args\n\nUsage: cd [PATH]"],
    );
    match asked(Builtin::cd_plan(Some(None), &environment)) {
        Request::ChangeDirectory { path } => assert_eq!(path, "/h"),
        other => panic!("{:?}", other),
    }
    match asked(Builtin::cd_plan(Some(Some("/x".to_string())), &environment)) {
        Request::ChangeDirectory { path } => assert_eq!(path, "/x"),
        other => panic!("{:?}", other),
    }
}

#[test]
fn cd_reports_two_for_a_missing_path_and_three_for_a_failed_change() {
    assert_report(
        &Builtin::cd_report("/does/not/exist", false, None),
        Some(2),
        &[],
        &["cd: no such file or directory: /does/not/exist"],
    );
    assert_report(
        &Builtin::cd_report("/does/not/exist", false, Some("ignored".to_string())),
        Some(2),
        &[],
        &["cd: no such file or directory: /does/not/exist"],
    );
    assert_report(
        &Builtin::cd_report("/root", true, Some("Permission denied (os error 13)".to_string())),
        Some(3),
        &[],
        &["cd: Permission denied (os error 13)"],
    );
    assert_report(&Builtin::cd_report("/tmp", true, None), Some(0), &[], &[]);
}

#[test]
fn pwd_asks_for_the_working_directory() {
    assert!(matches!(asked(Builtin::pwd(&argv(&["pwd", "x"]))), Request::WorkingDirectory));
    assert_report(&Builtin::pwd_report(Some("/tmp".to_string())), Some(0), &["/tmp"], &[]);
    assert_report(
        &Builtin::pwd_report(None),
        Some(1),
        &[],
        &["rshell: could not find current directory"],
    );
}

#[test]
fn history_asks_for_the_file_below_home() {
    let environment = shell_in(&[("HOME", "/home/alice")]).environment;
    match asked(Builtin::history(&argv(&["history"]), &environment)) {
        Request::History { directory } => assert_eq!(directory, "/home/alice"),
        other => panic!("{:?}", other),
    }
    match asked(Builtin::history(&argv(&["history"]), &Environment::new())) {
        Request::History { directory } => assert_eq!(directory, "/"),
        other => panic!("{:?}", other),
    }
}

#[test]
fn history_numbers_its_lines_from_one() {
    let lines = argv(&["ls", "", "echo a b"]);
    assert_report(
        &Builtin::history_report(Some(lines)),
        Some(0),
        &["1 ls", "2 ", "3 echo a b"],
        &[],
    );
    assert_report(&Builtin::history_report(Some(Vec::new())), Some(0), &[], &[]);
    let many: Vec<String> = (0..12).map(|i| format!("l{}", i)).collect();
    let report = Builtin::history_report(Some(many));
    assert_eq!(report.out[8], "9 l8");
    assert_eq!(report.out[9], "10 l9");
    assert_eq!(report.out[11], "12 l11");
}

#[test]
fn history_that_cannot_be_read_fails_with_one() {
    assert_report(
        &Builtin::history_report(None),
        Some(1),
        &[],
        &["rshell: could not read from ~/.rshistory"],
    );
}

#[test]
fn dispatcher_refuses_an_empty_vector() {
    let mut shell = shell_in(&[]);
    let error = Builtin::run(&argv(&[]), &mut shell).unwrap_err();
    assert_eq!(error.kind, ErrorKind::InvalidInput);
    assert_eq!(error.message, "expected 1 argument");
    assert_eq!(error.to_string(), "expected 1 argument");
}

#[test]
fn dispatcher_refuses_an_unknown_name_and_hands_it_back() {
    let mut shell = shell_in(&[]);
    let error = Builtin::run(&argv(&["ls", "-la"]), &mut shell).unwrap_err();
    assert_eq!(error.kind, ErrorKind::InvalidBuiltin);
    assert_eq!(error.message, "ls");
    let error = Builtin::run(&argv(&[""]), &mut shell).unwrap_err();
    assert_eq!(error.kind, ErrorKind::InvalidBuiltin);
    assert_eq!(error.message, "");
}

#[test]
fn dispatcher_runs_each_builtin() {
    let mut shell = shell_in(&[("HOME", "/h")]);
    assert_report(
        &done(Builtin::run(&argv(&["echo", "hi", "there"]), &mut shell).unwrap()),
        Some(0),
        &["hi there"],
        &[],
    );
    assert_report(
        &done(Builtin::run(&argv(&["alias", "x=y"]), &mut shell).unwrap()),
        Some(0),
        &[],
        &[],
    );
    assert_eq!(shell.aliases.get("x"), Some(&"y".to_string()));
    assert!(matches!(
        asked(Builtin::run(&argv(&["pwd"]), &mut shell).unwrap()),
        Request::WorkingDirectory
    ));
    match asked(Builtin::run(&argv(&["cd"]), &mut shell).unwrap()) {
        Request::ChangeDirectory { path } => assert_eq!(path, "/h"),
        other => panic!("{:?}", other),
    }
    match asked(Builtin::run(&argv(&["history"]), &mut shell).unwrap()) {
        Request::History { directory } => assert_eq!(directory, "/h"),
        other => panic!("{:?}", other),
    }
}

#[test]
fn builtin_runs_the_builtin_behind_it() {
    let mut shell = shell_in(&[]);
    assert_report(
        &done(Builtin::builtin(&argv(&["builtin", "echo", "a", "b"]), &mut shell)),
        Some(0),
        &["a b"],
        &[],
    );
    assert_report(
        &done(Builtin::builtin(
            &argv(&["builtin", "builtin", "builtin", "echo", "deep"]),
            &mut shell,
        )),
        Some(0),
        &["deep"],
        &[],
    );
    assert!(matches!(
        asked(Builtin::run(&argv(&["builtin", "exit", "4"]), &mut shell).unwrap()),
        Request::Exit { code: 4 }
    ));
    let _ = Builtin::builtin(&argv(&["builtin", "alias", "k=v"]), &mut shell);
    assert_eq!(shell.aliases.get("k"), Some(&"v".to_string()));
}

#[test]
fn builtin_of_an_unknown_name_fails_with_one() {
    let mut shell = shell_in(&[]);
    assert_report(
        &done(Builtin::builtin(&argv(&["builtin", "ls", "-la"]), &mut shell)),
        Some(1),
        &[],
        &["rshell: no such builtin: ls"],
    );
    assert_report(
        &done(Builtin::run(&argv(&["builtin", "builtin", "nope"]), &mut shell).unwrap()),
        Some(1),
        &[],
        &["rshell: no such builtin: nope"],
    );
}

#[test]
fn builtin_without_a_name_fails_with_two() {
    let mut shell = shell_in(&[]);
    assert_report(
        &done(Builtin::builtin(&argv(&["builtin"]), &mut shell)),
        Some(2),
        &[],
        &["rshell: expected 1 argument"],
    );
    assert_report(
        &done(Builtin::builtin(&argv(&[]), &mut shell)),
        Some(2),
        &[],
        &["rshell: expected 1 argument"],
    );
}

#[test]
fn error_keeps_kind_and_message() {
    let error: Error = Error::new(ErrorKind::InvalidBuiltin, "frob".to_string());
    assert_eq!(error.kind, ErrorKind::InvalidBuiltin);
    assert_eq!(error.to_string(), "frob");
    let counted: Error<u32> = Error::new(ErrorKind::InvalidInput, 7);
    assert_eq!(counted.kind, ErrorKind::InvalidInput);
    assert_eq!(counted.message, 7);
}
