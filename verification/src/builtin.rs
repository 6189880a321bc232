//! The operations that the shell carries out itself.
//!
//! Every operation gets the whole argument vector, its own name first.

use crate::host::{Report, ReportView, Request, RequestView, Step, StepView};
use crate::shell::{Environment, Shell, ShellView};
use crate::table::{entries_with, map_of, Entries};
use crate::text::{
    glue, decimal, decimal_of_count, join_from, joined, lemma_texts_push, parse_code,
    parse_exit_code, push_text, same_text, split_at_first, split_once, strip_quotes, texts,
    unquoted,
};
use crate::Aliases;
use vstd::prelude::*;
use vstd::slice::slice_subrange;

verus! {

/// The closed set of builtins.
#[derive(Clone, Copy, Debug, PartialEq, Eq, Structural)]
pub enum Builtin {
    Alias,
    Builtin,
    Cd,
    Echo,
    Exit,
    History,
    Pwd,
}

/// Why an argument vector does not run as a builtin.
#[derive(Clone, Copy, Debug, PartialEq, Eq, Structural)]
pub enum ErrorKind {
    /// The argument vector is empty.
    InvalidInput,
    /// The first argument names no builtin.
    InvalidBuiltin,
}

/// The refusal of the dispatcher: its kind, and the text that goes with it.
/// For `InvalidBuiltin` the text is the name that was asked for.
#[derive(Debug)]
pub struct Error<T = String> {
    pub kind: ErrorKind,
    pub message: T,
}

/// A refusal as contracts see it.
pub ghost struct ErrorView {
    pub kind: ErrorKind,
    pub message: Seq<char>,
}

impl View for Error<String> {
    type V = ErrorView;

    open spec fn view(&self) -> ErrorView {
        ErrorView { kind: self.kind, message: self.message@ }
    }
}

impl<T> Error<T> {
    pub fn new(kind: ErrorKind, message: T) -> (error: Self)
        ensures
            error.kind == kind,
            error.message == message,
    {
        Self { kind, message }
    }
}

impl Error<String> {
    /// The text of the refusal.
    pub fn to_string(&self) -> (s: String)
        ensures
            s@ == self@.message,
    {
        self.message.clone()
    }
}

/// What clap makes of the argument vector of `cd`, whose first element is
/// the name under which `cd` was called: `None` where it refuses the
/// arguments, else the path given, if one was given.
pub uninterp spec fn cd_path(args: Seq<Seq<char>>) -> Option<Option<Seq<char>>>;

/// Hands the argument vector to `clap::Command::try_get_matches_from`, on a
/// command named `cd` with the one optional positional argument `path`, and
/// reads `path` back with `clap::ArgMatches::get_one`. Whether clap accepts
/// the arguments, and the path it finds, depend on the arguments alone.
#[verifier::external_body]
fn cd_matches(args: &[String]) -> (path: Option<Option<String>>)
    ensures
        cd_path(texts(args@)) == match path {
            Some(Some(path)) => Some(Some(path@)),
            Some(None) => Some(None),
            None => None,
        },
{
    let matches = clap::Command::new("cd").arg(
        clap::Arg::new("path").action(clap::ArgAction::Set).value_name("PATH").help(
            "The path to change current directory to.",
        ),
    ).try_get_matches_from(args);
    match matches {
        Ok(matches) => Some(matches.get_one::<String>("path").cloned()),
        Err(_) => None,
    }
}

/// The arguments behind the name of the builtin.
pub open spec fn rest(args: Seq<Seq<char>>) -> Seq<Seq<char>> {
    if args.len() == 0 {
        args
    } else {
        args.subrange(1, args.len() as int)
    }
}

/// The line that shows one alias.
pub open spec fn alias_line(name: Seq<char>, value: Seq<char>) -> Seq<char> {
    name + "='"@ + value + "'"@
}

/// The lines that show all aliases, in the order of the registry.
pub open spec fn alias_listing(aliases: Entries) -> Seq<Seq<char>> {
    Seq::new(aliases.len(), |i: int| alias_line(aliases[i].0, aliases[i].1))
}

/// What `alias` reports on `args`, and the registry it leaves.
///
/// Without an argument it lists the aliases. With one argument that holds a
/// `=` it sets the name before the `=` to the text behind it, less one pair
/// of quotes around that text. With one argument without `=` it shows that
/// alias, or fails with 2 where there is none. With more it fails with 3.
pub open spec fn alias_outcome(args: Seq<Seq<char>>, aliases: Entries) -> (ReportView, Entries) {
    let extra = rest(args);
    if extra.len() == 0 {
        (ReportView { code: Some(0), out: alias_listing(aliases), err: Seq::empty() }, aliases)
    } else if extra.len() == 1 {
        match split_once(extra[0], '=') {
            Some((name, value)) => (
                ReportView::silent(Some(0)),
                entries_with(aliases, name, unquoted(value)),
            ),
            None => if map_of(aliases).contains_key(extra[0]) {
                (ReportView::printed(alias_line(extra[0], map_of(aliases)[extra[0]])), aliases)
            } else {
                (ReportView::failed(2, "alias: "@ + extra[0] + " not found"@), aliases)
            },
        }
    } else {
        (ReportView::failed(3, "alias: too many arguments"@), aliases)
    }
}

/// The home directory, or the root directory where none is set.
pub open spec fn home_or_root(environment: Map<Seq<char>, Seq<char>>) -> Seq<char> {
    if environment.contains_key("HOME"@) {
        environment["HOME"@]
    } else {
        "/"@
    }
}

/// What `cd` does once its arguments are parsed: it refuses with 1, or asks
/// for the change to the path given, else to the home directory.
pub open spec fn cd_step(
    parsed: Option<Option<Seq<char>>>,
    environment: Map<Seq<char>, Seq<char>>,
) -> StepView {
    match parsed {
        None => StepView::Done(ReportView::failed(1, "cd: invalid args\n\nUsage: cd [PATH]"@)),
        Some(None) => StepView::Ask(
            RequestView::ChangeDirectory { path: home_or_root(environment) },
        ),
        Some(Some(path)) => StepView::Ask(RequestView::ChangeDirectory { path }),
    }
}

/// What `cd` reports once the change was tried: 2 where the path does not
/// exist, 3 where it exists and the change failed, else success.
pub open spec fn cd_report(path: Seq<char>, exists: bool, failure: Option<Seq<char>>) -> ReportView {
    if !exists {
        ReportView::failed(2, "cd: no such file or directory: "@ + path)
    } else {
        match failure {
            Some(message) => ReportView::failed(3, "cd: "@ + message),
            None => ReportView::silent(Some(0)),
        }
    }
}

/// What `pwd` reports once the working directory was asked for.
pub open spec fn pwd_report(path: Option<Seq<char>>) -> ReportView {
    match path {
        Some(path) => ReportView::printed(path),
        None => ReportView::failed(1, "rshell: could not find current directory"@),
    }
}

/// The lines of the history, each behind its number, counted from one.
pub open spec fn numbered(lines: Seq<Seq<char>>) -> Seq<Seq<char>> {
    Seq::new(lines.len(), |i: int| decimal(i + 1) + " "@ + lines[i])
}

/// What `history` reports once the history file was read.
pub open spec fn history_report(lines: Option<Seq<Seq<char>>>) -> ReportView {
    match lines {
        Some(lines) => ReportView { code: Some(0), out: numbered(lines), err: Seq::empty() },
        None => ReportView::failed(1, "rshell: could not read from ~/.rshistory"@),
    }
}

/// The status that `exit` ends the shell with: the first argument behind its
/// name where that spells a number, else zero.
pub open spec fn exit_code(args: Seq<Seq<char>>) -> i32 {
    if args.len() >= 2 {
        match parse_code(args[1]) {
            Some(code) => code,
            None => 0,
        }
    } else {
        0
    }
}

/// What a builtin leaves: the step it comes to, and the registry of aliases.
pub ghost struct Ran {
    pub step: StepView,
    pub aliases: Entries,
}

/// What `builtin` makes of what the dispatcher did with the arguments behind
/// its name: a refusal becomes a failure, 1 for an unknown name and 2 for no
/// name at all.
pub open spec fn builtin_of(inner: Result<Ran, ErrorView>, aliases: Entries) -> Ran {
    match inner {
        Ok(ran) => ran,
        Err(error) => match error.kind {
            ErrorKind::InvalidBuiltin => Ran {
                step: StepView::Done(
                    ReportView::failed(1, "rshell: no such builtin: "@ + error.message),
                ),
                aliases,
            },
            ErrorKind::InvalidInput => Ran {
                step: StepView::Done(ReportView::failed(2, "rshell: "@ + error.message)),
                aliases,
            },
        },
    }
}

/// What the dispatcher does with `args`: it refuses an empty vector and a
/// first argument that names no builtin, and else runs the builtin named.
pub open spec fn dispatch(args: Seq<Seq<char>>, shell: ShellView) -> Result<Ran, ErrorView>
    decreases args.len(),
{
    if args.len() == 0 {
        Err(ErrorView { kind: ErrorKind::InvalidInput, message: "expected 1 argument"@ })
    } else {
        match Builtin::named(args[0]) {
            Some(Builtin::Alias) => Ok(
                Ran {
                    step: StepView::Done(alias_outcome(args, shell.aliases).0),
                    aliases: alias_outcome(args, shell.aliases).1,
                },
            ),
            Some(Builtin::Builtin) => Ok(
                builtin_of(dispatch(args.subrange(1, args.len() as int), shell), shell.aliases),
            ),
            Some(Builtin::Cd) => Ok(
                Ran { step: cd_step(cd_path(args), shell.environment), aliases: shell.aliases },
            ),
            Some(Builtin::Echo) => Ok(
                Ran {
                    step: StepView::Done(ReportView::printed(joined(rest(args), " "@))),
                    aliases: shell.aliases,
                },
            ),
            Some(Builtin::Exit) => Ok(
                Ran {
                    step: StepView::Ask(RequestView::Exit { code: exit_code(args) }),
                    aliases: shell.aliases,
                },
            ),
            Some(Builtin::History) => Ok(
                Ran {
                    step: StepView::Ask(
                        RequestView::History { directory: home_or_root(shell.environment) },
                    ),
                    aliases: shell.aliases,
                },
            ),
            Some(Builtin::Pwd) => Ok(
                Ran { step: StepView::Ask(RequestView::WorkingDirectory), aliases: shell.aliases },
            ),
            None => Err(ErrorView { kind: ErrorKind::InvalidBuiltin, message: args[0] }),
        }
    }
}

impl Builtin {
    /// The builtin that `keyword` names: each by its own name, `cd` also as
    /// `chdir` and `exit` also as `bye`.
    pub open spec fn named(keyword: Seq<char>) -> Option<Builtin> {
        if keyword == "alias"@ {
            Some(Builtin::Alias)
        } else if keyword == "echo"@ {
            Some(Builtin::Echo)
        } else if keyword == "exit"@ || keyword == "bye"@ {
            Some(Builtin::Exit)
        } else if keyword == "builtin"@ {
            Some(Builtin::Builtin)
        } else if keyword == "history"@ {
            Some(Builtin::History)
        } else if keyword == "cd"@ || keyword == "chdir"@ {
            Some(Builtin::Cd)
        } else if keyword == "pwd"@ {
            Some(Builtin::Pwd)
        } else {
            None
        }
    }

    /// The builtin that `s` names.
    ///
    /// # Errors
    ///
    /// Returns `s` itself where it names none.
    pub fn from_str(s: &str) -> (builtin: Result<Builtin, String>)
        ensures
            match builtin {
                Ok(builtin) => Builtin::named(s@) == Some(builtin),
                Err(name) => Builtin::named(s@) is None && name@ == s@,
            },
    {
        if same_text(s, "alias") {
            Ok(Builtin::Alias)
        } else if same_text(s, "echo") {
            Ok(Builtin::Echo)
        } else if same_text(s, "exit") || same_text(s, "bye") {
            Ok(Builtin::Exit)
        } else if same_text(s, "builtin") {
            Ok(Builtin::Builtin)
        } else if same_text(s, "history") {
            Ok(Builtin::History)
        } else if same_text(s, "cd") || same_text(s, "chdir") {
            Ok(Builtin::Cd)
        } else if same_text(s, "pwd") {
            Ok(Builtin::Pwd)
        } else {
            Err(s.to_owned())
        }
    }

    fn alias_text(name: &str, value: &str) -> (line: String)
        ensures
            line@ == alias_line(name@, value@),
    {
        let mut line = String::new();
        push_text(&mut line, name);
        push_text(&mut line, "='");
        push_text(&mut line, value);
        push_text(&mut line, "'");
        line
    }

    /// Lists, sets or shows aliases.
    pub fn alias(args: &[String], aliases: &mut Aliases) -> (report: Report)
        ensures
            report@ == alias_outcome(texts(args@), old(aliases).entries()).0,
            final(aliases).entries() == alias_outcome(texts(args@), old(aliases).entries()).1,
    {
        let ghost words = texts(args@);
        if args.len() <= 1 {
            let mut out: Vec<String> = Vec::new();
            let mut i: usize = 0;
            while i < aliases.len()
                invariant
                    i <= aliases.entries().len(),
                    texts(out@) == alias_listing(aliases.entries()).take(i as int),
                decreases aliases.entries().len() - i,
            {
                let line = Self::alias_text(aliases.key_at(i).as_str(), aliases.value_at(i).as_str());
                proof {
                    lemma_texts_push(out@, line);
                    assert(alias_listing(aliases.entries()).take(i + 1) == alias_listing(
                        aliases.entries(),
                    ).take(i as int).push(line@));
                }
                out.push(line);
                i += 1;
            }
            assert(alias_listing(aliases.entries()).take(aliases.entries().len() as int)
                == alias_listing(aliases.entries()));
            let report = Report { code: Some(0), out, err: Vec::new() };
            assert(report@.err == Seq::<Seq<char>>::empty());
            report
        } else if args.len() == 2 {
            assert(rest(words)[0] == args@[1]@);
            match split_at_first(args[1].as_str(), '=') {
                Some((name, value)) => {
                    aliases.set(name, strip_quotes(value.as_str()));
                    Report::silent(Some(0))
                },
                None => match aliases.get(args[1].as_str()) {
                    Some(value) => Report::printed(
                        Self::alias_text(args[1].as_str(), value.as_str()),
                    ),
                    None => {
                        let mut line = glue("alias: ", args[1].as_str());
                        push_text(&mut line, " not found");
                        Report::failed(2, line)
                    },
                },
            }
        } else {
            Report::failed(3, "alias: too many arguments".to_owned())
        }
    }

    /// Runs the builtin that the arguments behind `builtin` name, whatever
    /// else may go by that name.
    pub fn builtin(args: &[String], shell: &mut Shell) -> (step: Step)
        ensures
            step@ == builtin_of(
                dispatch(rest(texts(args@)), old(shell)@),
                old(shell)@.aliases,
            ).step,
            final(shell)@ == (ShellView {
                aliases: builtin_of(
                    dispatch(rest(texts(args@)), old(shell)@),
                    old(shell)@.aliases,
                ).aliases,
                ..old(shell)@
            }),
        decreases args@.len(), 0int,
    {
        let inner = if args.len() == 0 {
            assert(rest(texts(args@)).len() == 0);
            Err(Error::new(ErrorKind::InvalidInput, "expected 1 argument".to_owned()))
        } else {
            let behind = slice_subrange(args, 1, args.len());
            assert(texts(behind@) == rest(texts(args@)));
            Self::run(behind, shell)
        };
        match inner {
            Ok(step) => step,
            Err(error) => match error.kind {
                ErrorKind::InvalidBuiltin => Step::Done(
                    Report::failed(
                        1,
                        glue("rshell: no such builtin: ", error.message.as_str()),
                    ),
                ),
                ErrorKind::InvalidInput => Step::Done(
                    Report::failed(2, glue("rshell: ", error.message.as_str())),
                ),
            },
        }
    }

    /// Runs the builtin that `args[0]` names on `args`.
    ///
    /// # Errors
    ///
    /// `InvalidInput` where `args` is empty, and `InvalidBuiltin` with the
    /// name where `args[0]` names no builtin. The shell is then as it was.
    pub fn run(args: &[String], shell: &mut Shell) -> (result: Result<Step, Error>)
        ensures
            match result {
                Ok(step) => dispatch(texts(args@), old(shell)@) == Ok::<Ran, ErrorView>(
                    Ran { step: step@, aliases: final(shell)@.aliases },
                ),
                Err(error) => dispatch(texts(args@), old(shell)@) == Err::<Ran, ErrorView>(error@)
                    && final(shell)@ == old(shell)@,
            },
            final(shell)@.previous_exit_code == old(shell)@.previous_exit_code,
            final(shell)@.environment == old(shell)@.environment,
        decreases args@.len(), 1int,
    {
        if args.len() == 0 {
            return Err(Error::new(ErrorKind::InvalidInput, "expected 1 argument".to_owned()));
        }
        assert(texts(args@)[0] == args@[0]@);
        match Self::from_str(args[0].as_str()) {
            Ok(Builtin::Alias) => Ok(Step::Done(Self::alias(args, &mut shell.aliases))),
            Ok(Builtin::Builtin) => {
                assert(rest(texts(args@)) == texts(args@).subrange(1, args@.len() as int));
                Ok(Self::builtin(args, shell))
            },
            Ok(Builtin::Cd) => Ok(Self::cd(args, &shell.environment)),
            Ok(Builtin::Echo) => Ok(Step::Done(Self::echo(args))),
            Ok(Builtin::Exit) => Ok(Step::Ask(Request::Exit { code: Self::exit(args) })),
            Ok(Builtin::History) => Ok(Self::history(args, &shell.environment)),
            Ok(Builtin::Pwd) => Ok(Self::pwd(args)),
            Err(command) => Err(Error::new(ErrorKind::InvalidBuiltin, command)),
        }
    }

    fn home(environment: &Environment) -> (home: String)
        ensures
            home@ == home_or_root(environment@),
    {
        match environment.get("HOME") {
            Some(home) => home.clone(),
            None => "/".to_owned(),
        }
    }

    /// Asks for the change of the working directory: to the path that clap
    /// finds in `args`, or to the home directory where it finds none.
    #[must_use]
    pub fn cd(args: &[String], environment: &Environment) -> (step: Step)
        ensures
            step@ == cd_step(cd_path(texts(args@)), environment@),
    {
        Self::cd_plan(cd_matches(args), environment)
    }

    /// What `cd` does with what clap made of its arguments: `None` where
    /// clap refused them, else the path given, if one was given.
    #[must_use]
    pub fn cd_plan(parsed: Option<Option<String>>, environment: &Environment) -> (step: Step)
        ensures
            step@ == cd_step(
                match parsed {
                    Some(Some(path)) => Some(Some(path@)),
                    Some(None) => Some(None),
                    None => None,
                },
                environment@,
            ),
    {
        match parsed {
            None => Step::Done(
                Report::failed(1, "cd: invalid args\n\nUsage: cd [PATH]".to_owned()),
            ),
            Some(None) => Step::Ask(Request::ChangeDirectory { path: Self::home(environment) }),
            Some(Some(path)) => Step::Ask(Request::ChangeDirectory { path }),
        }
    }

    /// What `cd` reports once the change to `path` was tried.
    #[must_use]
    pub fn cd_report(path: &str, exists: bool, failure: Option<String>) -> (report: Report)
        ensures
            report@ == cd_report(path@, exists, crate::host::text_of(failure)),
    {
        if !exists {
            Report::failed(2, glue("cd: no such file or directory: ", path))
        } else {
            match failure {
                Some(message) => Report::failed(3, glue("cd: ", message.as_str())),
                None => Report::silent(Some(0)),
            }
        }
    }

    /// Prints the arguments behind `echo`, with one space between neighbours.
    #[must_use]
    pub fn echo(args: &[String]) -> (report: Report)
        ensures
            report@ == ReportView::printed(joined(rest(texts(args@)), " "@)),
    {
        let line = join_from(args, 1, " ");
        proof {
            if args@.len() == 0 {
                assert(rest(texts(args@)).len() == 0);
            }
        }
        Report::printed(line)
    }

    /// The status that `exit` ends the shell with.
    #[must_use]
    pub fn exit(args: &[String]) -> (code: i32)
        ensures
            code == exit_code(texts(args@)),
    {
        if args.len() >= 2 {
            assert(texts(args@)[1] == args@[1]@);
            match parse_exit_code(args[1].as_str()) {
                Some(code) => code,
                None => 0,
            }
        } else {
            0
        }
    }

    /// Asks for the lines of the history file below the home directory.
    #[must_use]
    pub fn history(_args: &[String], environment: &Environment) -> (step: Step)
        ensures
            step@ == StepView::Ask(
                RequestView::History { directory: home_or_root(environment@) },
            ),
    {
        Step::Ask(Request::History { directory: Self::home(environment) })
    }

    /// What `history` reports once the file was read: its lines, numbered.
    #[must_use]
    pub fn history_report(lines: Option<Vec<String>>) -> (report: Report)
        ensures
            report@ == history_report(
                match lines {
                    Some(lines) => Some(texts(lines@)),
                    None => None,
                },
            ),
    {
        match lines {
            None => Report::failed(1, "rshell: could not read from ~/.rshistory".to_owned()),
            Some(lines) => {
                let mut out: Vec<String> = Vec::new();
                let mut i: usize = 0;
                while i < lines.len()
                    invariant
                        i <= lines.len(),
                        texts(out@) == numbered(texts(lines@)).take(i as int),
                    decreases lines.len() - i,
                {
                    let mut line = decimal_of_count(i + 1);
                    push_text(&mut line, " ");
                    push_text(&mut line, lines[i].as_str());
                    proof {
                        lemma_texts_push(out@, line);
                        assert(numbered(texts(lines@)).take(i + 1) == numbered(
                            texts(lines@),
                        ).take(i as int).push(line@));
                    }
                    out.push(line);
                    i += 1;
                }
                assert(numbered(texts(lines@)).take(lines.len() as int) == numbered(
                    texts(lines@),
                ));
                let report = Report { code: Some(0), out, err: Vec::new() };
                assert(report@.err == Seq::<Seq<char>>::empty());
                report
            },
        }
    }

    /// Asks for the working directory.
    #[must_use]
    pub fn pwd(_args: &[String]) -> (step: Step)
        ensures
            step@ == StepView::Ask(RequestView::WorkingDirectory),
    {
        Step::Ask(Request::WorkingDirectory)
    }

    /// What `pwd` reports once the working directory was asked for.
    #[must_use]
    pub fn pwd_report(path: Option<String>) -> (report: Report)
        ensures
            report@ == pwd_report(crate::host::text_of(path)),
    {
        match path {
            Some(path) => Report::printed(path),
            None => Report::failed(1, "rshell: could not find current directory".to_owned()),
        }
    }
}

} // verus!
