//! Commands and how they are run.

use crate::builtin::{cd_report, dispatch, history_report, pwd_report, Builtin, Ran};
use crate::host::{reply_of, Reply, ReplyView, Report, ReportView, Request, RequestView, Step, StepView};
use crate::lang::parser::error::{Error, ErrorKindView};
use crate::lang::parser::{outcome, parse, Parser};
use crate::lang::scanner::{scan, Scanner};
use crate::shell::{Shell, ShellView};
use crate::text::{clone_texts, glue, lemma_texts_add, texts};
use crate::{
    NOT_FOUND_EXIT_CODE, SIGINT_EXIT_CODE, SPAWN_ERROR_EXIT_CODE, WAIT_ERROR_EXIT_CODE,
};
use vstd::prelude::*;

verus! {

/// One command of a line: the word that names it and the words after it.
/// A command without a keyword does nothing and succeeds.
#[derive(Debug)]
pub struct Command {
    pub keyword: String,
    pub args: Vec<String>,
}

/// A command as contracts see it.
pub ghost struct CommandView {
    pub keyword: Seq<char>,
    pub args: Seq<Seq<char>>,
}

impl View for Command {
    type V = CommandView;

    open spec fn view(&self) -> CommandView {
        CommandView { keyword: self.keyword@, args: texts(self.args@) }
    }
}

impl CommandView {
    /// The command that does nothing.
    pub open spec fn empty() -> CommandView {
        CommandView { keyword: Seq::empty(), args: Seq::empty() }
    }

    /// The command that `words` spell: the first word names it.
    pub open spec fn of_words(words: Seq<Seq<char>>) -> CommandView {
        if words.len() == 0 {
            CommandView::empty()
        } else {
            CommandView { keyword: words[0], args: words.subrange(1, words.len() as int) }
        }
    }

    /// The keyword followed by the arguments.
    pub open spec fn words(self) -> Seq<Seq<char>> {
        seq![self.keyword] + self.args
    }
}

/// The views of `commands`, in order.
pub open spec fn command_views(commands: Seq<Command>) -> Seq<CommandView> {
    Seq::new(commands.len(), |i: int| commands[i]@)
}

impl Command {
    #[must_use]
    pub fn new(keyword: String, args: Vec<String>) -> (command: Self)
        ensures
            command == (Command { keyword, args }),
    {
        Self { keyword, args }
    }
}

impl Default for Command {
    /// The command that does nothing.
    fn default() -> (command: Self)
        ensures
            command@ == CommandView::empty(),
    {
        let command = Command { keyword: String::new(), args: Vec::new() };
        assert(command@.args == Seq::<Seq<char>>::empty());
        command
    }
}

impl Clone for Command {
    fn clone(&self) -> (command: Self)
        ensures
            command@ == self@,
    {
        Command { keyword: self.keyword.clone(), args: clone_texts(&self.args) }
    }
}

/// What running `command` comes to, and the registry of aliases it leaves.
///
/// A builtin is run as such. A command without a keyword does nothing and
/// succeeds. Any other keyword names a program to be started.
pub open spec fn interpret(command: CommandView, shell: ShellView) -> Ran {
    match dispatch(command.words(), shell) {
        Ok(ran) => ran,
        Err(_) => Ran {
            step: if command.keyword.len() == 0 {
                StepView::Done(ReportView::silent(Some(0)))
            } else {
                StepView::Ask(
                    RequestView::Spawn { program: command.keyword, args: command.args },
                )
            },
            aliases: shell.aliases,
        },
    }
}

/// The report of a command that asked for `request` and got `reply`.
///
/// A program that ran leaves its own exit status, or none where a signal
/// ended it. A reply that does not answer the request leaves no status, as
/// an interruption does.
pub open spec fn settle(request: RequestView, reply: ReplyView) -> ReportView {
    match (request, reply) {
        (
            RequestView::ChangeDirectory { path },
            ReplyView::DirectoryChanged { exists, failure },
        ) => cd_report(path, exists, failure),
        (RequestView::WorkingDirectory, ReplyView::WorkingDirectory { path }) => pwd_report(path),
        (RequestView::History { .. }, ReplyView::History { lines }) => history_report(lines),
        (RequestView::Spawn { .. }, ReplyView::Exited { code }) => ReportView::silent(code),
        (RequestView::Spawn { program, .. }, ReplyView::NotFound) => ReportView::failed(
            NOT_FOUND_EXIT_CODE,
            "rshell: command not found: "@ + program,
        ),
        (RequestView::Spawn { .. }, ReplyView::SpawnFailed { message }) => ReportView::failed(
            SPAWN_ERROR_EXIT_CODE,
            "rshell: "@ + message,
        ),
        (RequestView::Spawn { .. }, ReplyView::WaitFailed { message }) => ReportView::failed(
            WAIT_ERROR_EXIT_CODE,
            "rshell: "@ + message,
        ),
        _ => ReportView::silent(None),
    }
}

/// What the caller is to do after a turn of a run.
#[derive(Debug)]
pub enum Next {
    /// The line is done; `code` is its exit status.
    Finished { code: i32 },
    /// Carry out the request and hand the reply to the next turn.
    Perform(Request),
}

/// What comes next, as contracts see it.
pub ghost enum NextView {
    Finished { code: i32 },
    Perform(RequestView),
}

impl View for Next {
    type V = NextView;

    open spec fn view(&self) -> NextView {
        match self {
            Next::Finished { code } => NextView::Finished { code: *code },
            Next::Perform(request) => NextView::Perform(request@),
        }
    }
}

/// One turn of a run: the lines that the commands of this turn have for the
/// standard output and for the diagnostic stream, and what comes next.
#[derive(Debug)]
pub struct Turn {
    pub out: Vec<String>,
    pub err: Vec<String>,
    pub next: Next,
}

/// A turn as contracts see it.
pub ghost struct TurnView {
    pub out: Seq<Seq<char>>,
    pub err: Seq<Seq<char>>,
    pub next: NextView,
}

impl View for Turn {
    type V = TurnView;

    open spec fn view(&self) -> TurnView {
        TurnView { out: texts(self.out@), err: texts(self.err@), next: self.next@ }
    }
}

/// The commands of one line while they are run, one after the other.
#[derive(Debug)]
pub struct Run {
    commands: Vec<Command>,
    cursor: usize,
    pending: Option<Request>,
    status: Option<i32>,
}

/// A run as contracts see it: its commands, the place of the command that
/// runs or is to run next, the request that waits for its reply, and the
/// exit status of the line once it is done.
pub ghost struct RunView {
    pub commands: Seq<CommandView>,
    pub cursor: nat,
    pub pending: Option<RequestView>,
    pub status: Option<i32>,
}

impl View for Run {
    type V = RunView;

    closed spec fn view(&self) -> RunView {
        RunView {
            commands: command_views(self.commands@),
            cursor: self.cursor as nat,
            pending: match self.pending {
                Some(request) => Some(request@),
                None => None,
            },
            status: self.status,
        }
    }
}

impl RunView {
    /// The run of `commands` before its first turn.
    pub open spec fn fresh(commands: Seq<CommandView>) -> RunView {
        RunView { commands, cursor: 0, pending: None, status: None }
    }
}

/// Where a turn leaves the run and the shell.
pub ghost struct Progress {
    pub turn: TurnView,
    pub run: RunView,
    pub shell: ShellView,
}

impl Progress {
    /// The same progress, with `out` and `err` written before its own lines.
    pub open spec fn after(self, out: Seq<Seq<char>>, err: Seq<Seq<char>>) -> Progress {
        Progress {
            turn: TurnView { out: out + self.turn.out, err: err + self.turn.err, ..self.turn },
            ..self
        }
    }

    /// The line is done with `code`, which the shell keeps as the exit
    /// status of the line before the next.
    pub open spec fn finished(
        commands: Seq<CommandView>,
        cursor: nat,
        shell: ShellView,
        code: i32,
    ) -> Progress {
        Progress {
            turn: TurnView {
                out: Seq::empty(),
                err: Seq::empty(),
                next: NextView::Finished { code },
            },
            run: RunView { commands, cursor, pending: None, status: Some(code) },
            shell: ShellView { previous_exit_code: code, ..shell },
        }
    }
}

/// Runs the commands from `cursor` on, in order, until one of them needs the
/// operating system, or fails, or none is left.
pub open spec fn proceed(commands: Seq<CommandView>, cursor: nat, shell: ShellView) -> Progress
    decreases commands.len() - cursor, 1int,
{
    if cursor >= commands.len() {
        Progress::finished(commands, cursor, shell, 0)
    } else {
        let ran = interpret(commands[cursor as int], shell);
        let shell = ShellView { aliases: ran.aliases, ..shell };
        match ran.step {
            StepView::Done(report) => conclude(commands, cursor, shell, report),
            StepView::Ask(RequestView::Exit { code }) => Progress {
                turn: TurnView {
                    out: Seq::empty(),
                    err: Seq::empty(),
                    next: NextView::Perform(RequestView::Exit { code }),
                },
                run: RunView { commands, cursor, pending: None, status: Some(code) },
                shell,
            },
            StepView::Ask(request) => Progress {
                turn: TurnView {
                    out: Seq::empty(),
                    err: Seq::empty(),
                    next: NextView::Perform(request),
                },
                run: RunView { commands, cursor, pending: Some(request), status: None },
                shell,
            },
        }
    }
}

/// What follows once the command at `cursor` has left `report`: after a
/// success the next command runs; any other status ends the line and is its
/// status, the status of an interruption where the command left none.
pub open spec fn conclude(
    commands: Seq<CommandView>,
    cursor: nat,
    shell: ShellView,
    report: ReportView,
) -> Progress
    decreases commands.len() - cursor, 0int,
{
    match report.code {
        Some(code) => if code != 0 {
            Progress::finished(commands, cursor, shell, code).after(report.out, report.err)
        } else if cursor < commands.len() {
            proceed(commands, cursor + 1, shell).after(report.out, report.err)
        } else {
            Progress::finished(commands, cursor, shell, 0).after(report.out, report.err)
        },
        None => Progress::finished(commands, cursor, shell, SIGINT_EXIT_CODE).after(
            report.out,
            report.err,
        ),
    }
}

/// One turn of a run. A run that is done stays done, says nothing more and
/// leaves the shell alone.
/// A run that waits for a reply goes on from that reply, and takes a missing
/// reply for an interruption. A fresh run starts with its first command.
pub open spec fn advance(run: RunView, shell: ShellView, reply: Option<ReplyView>) -> Progress {
    match run.status {
        Some(code) => Progress {
            turn: TurnView {
                out: Seq::empty(),
                err: Seq::empty(),
                next: NextView::Finished { code },
            },
            run,
            shell,
        },
        None => match run.pending {
            Some(request) => conclude(
                run.commands,
                run.cursor,
                shell,
                match reply {
                    Some(reply) => settle(request, reply),
                    None => ReportView::silent(None),
                },
            ),
            None => proceed(run.commands, run.cursor, shell),
        },
    }
}

impl Command {
    /// Runs the command as far as the shell can on its own.
    pub fn interpret(&self, shell: &mut Shell) -> (step: Step)
        ensures
            step@ == interpret(self@, old(shell)@).step,
            final(shell)@ == (ShellView {
                aliases: interpret(self@, old(shell)@).aliases,
                ..old(shell)@
            }),
    {
        let mut args = clone_texts(&self.args);
        args.insert(0, self.keyword.clone());
        assert(texts(args@) == self@.words());
        match Builtin::run(args.as_slice(), shell) {
            Ok(step) => step,
            Err(_) => {
                if self.keyword.as_str().is_empty() {
                    Step::Done(Report::silent(Some(0)))
                } else {
                    Step::Ask(
                        Request::Spawn {
                            program: self.keyword.clone(),
                            args: clone_texts(&self.args),
                        },
                    )
                }
            },
        }
    }

    /// The report of a command that asked for `request` and got `reply`.
    pub fn settle(request: &Request, reply: Reply) -> (report: Report)
        ensures
            report@ == settle(request@, reply@),
    {
        match (request, reply) {
            (Request::ChangeDirectory { path }, Reply::DirectoryChanged { exists, failure }) => {
                Builtin::cd_report(path.as_str(), exists, failure)
            },
            (Request::WorkingDirectory, Reply::WorkingDirectory { path }) => Builtin::pwd_report(
                path,
            ),
            (Request::History { .. }, Reply::History { lines }) => Builtin::history_report(lines),
            (Request::Spawn { .. }, Reply::Exited { code }) => Report::silent(code),
            (Request::Spawn { program, .. }, Reply::NotFound) => Report::failed(
                NOT_FOUND_EXIT_CODE,
                glue("rshell: command not found: ", program.as_str()),
            ),
            (Request::Spawn { .. }, Reply::SpawnFailed { message }) => Report::failed(
                SPAWN_ERROR_EXIT_CODE,
                glue("rshell: ", message.as_str()),
            ),
            (Request::Spawn { .. }, Reply::WaitFailed { message }) => Report::failed(
                WAIT_ERROR_EXIT_CODE,
                glue("rshell: ", message.as_str()),
            ),
            _ => Report::silent(None),
        }
    }

    /// Scans and parses `line` into its commands.
    ///
    /// # Errors
    ///
    /// Returns the parse error where the line does not follow the grammar.
    pub fn parse(line: &str, shell: &Shell) -> (result: Result<Vec<Command>, Error>)
        ensures
            match result {
                Ok(commands) => outcome(parse(scan(line@, shell@), shell@.environment)) == Ok::<
                    Seq<CommandView>,
                    ErrorKindView,
                >(command_views(commands@)),
                Err(error) => outcome(parse(scan(line@, shell@), shell@.environment)) == Err::<
                    Seq<CommandView>,
                    ErrorKindView,
                >(error@),
            },
    {
        let mut scanner = Scanner::new(line);
        let tokens = scanner.scan_tokens(shell);
        let mut parser = Parser::new(tokens);
        parser.parse_tokens(&shell.environment)
    }

    /// Scans and parses `line` and sets its commands up to be run. Nothing
    /// has run yet: the turns of the run do that.
    ///
    /// # Errors
    ///
    /// Returns the parse error where the line does not follow the grammar.
    /// No command of such a line is run, and the code of the error becomes
    /// the exit status of the line.
    pub fn run(line: &str, shell: &mut Shell) -> (result: Result<Run, Error>)
        ensures
            match result {
                Ok(run) => outcome(parse(scan(line@, old(shell)@), old(shell)@.environment))
                    == Ok::<Seq<CommandView>, ErrorKindView>(run@.commands) && run@
                    == RunView::fresh(run@.commands) && final(shell)@ == old(shell)@,
                Err(error) => outcome(parse(scan(line@, old(shell)@), old(shell)@.environment))
                    == Err::<Seq<CommandView>, ErrorKindView>(error@) && final(shell)@
                    == (ShellView { previous_exit_code: error@.code(), ..old(shell)@ }),
            },
    {
        match Self::parse(line, shell) {
            Ok(commands) => Ok(Run::new(commands)),
            Err(error) => {
                shell.previous_exit_code = error.kind().code();
                Err(error)
            },
        }
    }
}

impl Run {
    /// The run of `commands` before its first turn.
    pub fn new(commands: Vec<Command>) -> (run: Self)
        ensures
            run@ == RunView::fresh(command_views(commands@)),
    {
        Run { commands, cursor: 0, pending: None, status: None }
    }

    /// The commands of the line.
    pub fn commands(&self) -> (commands: &Vec<Command>)
        ensures
            command_views(commands@) == self@.commands,
    {
        &self.commands
    }

    fn finish(&mut self, shell: &mut Shell, code: i32, out: Vec<String>, err: Vec<String>) -> (turn:
        Turn)
        ensures
            turn@ == (TurnView {
                out: texts(out@),
                err: texts(err@),
                next: NextView::Finished { code },
            }),
            final(self)@ == (RunView { pending: None, status: Some(code), ..old(self)@ }),
            final(shell)@ == (ShellView { previous_exit_code: code, ..old(shell)@ }),
    {
        self.pending = None;
        self.status = Some(code);
        shell.previous_exit_code = code;
        Turn { out, err, next: Next::Finished { code } }
    }

    /// Takes the run one turn further: through every command that the shell
    /// can run on its own, up to the first that needs the operating system,
    /// or that does not succeed, or to the end of the line.
    ///
    /// `reply` answers the request of the turn before, if that turn ended
    /// in one.
    #[verifier::loop_isolation(false)]
    pub fn advance(&mut self, shell: &mut Shell, reply: Option<Reply>) -> (turn: Turn)
        ensures
            (Progress { turn: turn@, run: final(self)@, shell: final(shell)@ }) == advance(
                old(self)@,
                old(shell)@,
                reply_of(reply),
            ),
    {
        let ghost commands = self@.commands;
        let ghost goal = advance(self@, shell@, reply_of(reply));
        let mut out: Vec<String> = Vec::new();
        let mut err: Vec<String> = Vec::new();
        assert(texts(out@) == Seq::<Seq<char>>::empty());
        assert(texts(err@) == Seq::<Seq<char>>::empty());
        if let Some(code) = self.status {
            return Turn { out, err, next: Next::Finished { code } };
        }
        let mut report: Option<Report> = None;
        if let Some(request) = &self.pending {
            report = Some(
                match reply {
                    Some(reply) => Command::settle(request, reply),
                    None => Report::silent(None),
                },
            );
        }
        self.pending = None;
        loop
            invariant
                self@.commands == commands,
                self@.pending is None,
                self@.status is None,
                goal == (match report {
                    Some(report) => conclude(commands, self@.cursor, shell@, report@),
                    None => proceed(commands, self@.cursor, shell@),
                }).after(texts(out@), texts(err@)),
            decreases
                    commands.len() - self@.cursor,
                    if report is Some {
                        0int
                    } else {
                        1int
                    },
        {
            let ghost before_out = texts(out@);
            let ghost before_err = texts(err@);
            match report {
                Some(done) => {
                    let mut done = done;
                    proof {
                        lemma_texts_add(out@, done.out@);
                        lemma_texts_add(err@, done.err@);
                    }
                    let ghost said = done@;
                    out.append(&mut done.out);
                    err.append(&mut done.err);
                    assert(texts(out@) == before_out + said.out);
                    assert(texts(err@) == before_err + said.err);
                    match done.code {
                        Some(code) => {
                            if code != 0 {
                                proof {
                                    lemma_after_after(
                                        Progress::finished(commands, self@.cursor, shell@, code),
                                        said.out,
                                        said.err,
                                        before_out,
                                        before_err,
                                    );
                                }
                                return self.finish(shell, code, out, err);
                            } else if self.cursor < self.commands.len() {
                                proof {
                                    lemma_after_after(
                                        proceed(commands, self@.cursor + 1, shell@),
                                        said.out,
                                        said.err,
                                        before_out,
                                        before_err,
                                    );
                                }
                                self.cursor += 1;
                                report = None;
                            } else {
                                proof {
                                    lemma_after_after(
                                        Progress::finished(commands, self@.cursor, shell@, 0),
                                        said.out,
                                        said.err,
                                        before_out,
                                        before_err,
                                    );
                                }
                                return self.finish(shell, 0, out, err);
                            }
                        },
                        None => {
                            proof {
                                lemma_after_after(
                                    Progress::finished(
                                        commands,
                                        self@.cursor,
                                        shell@,
                                        SIGINT_EXIT_CODE,
                                    ),
                                    said.out,
                                    said.err,
                                    before_out,
                                    before_err,
                                );
                            }
                            return self.finish(shell, SIGINT_EXIT_CODE, out, err);
                        },
                    }
                },
                None => {
                    if self.cursor >= self.commands.len() {
                        return self.finish(shell, 0, out, err);
                    }
                    match self.commands[self.cursor].interpret(shell) {
                        Step::Done(done) => {
                            report = Some(done);
                        },
                        Step::Ask(Request::Exit { code }) => {
                            self.status = Some(code);
                            let turn = Turn {
                                out,
                                err,
                                next: Next::Perform(Request::Exit { code }),
                            };
                            assert(turn@.out == before_out + Seq::<Seq<char>>::empty());
                            assert(turn@.err == before_err + Seq::<Seq<char>>::empty());
                            return turn;
                        },
                        Step::Ask(request) => {
                            self.pending = Some(request.clone());
                            let turn = Turn { out, err, next: Next::Perform(request) };
                            assert(turn@.out == before_out + Seq::<Seq<char>>::empty());
                            assert(turn@.err == before_err + Seq::<Seq<char>>::empty());
                            return turn;
                        },
                    }
                },
            }
        }
    }
}

/// Writing lines before a progress twice is writing them all before it once.
proof fn lemma_after_after(
    progress: Progress,
    out: Seq<Seq<char>>,
    err: Seq<Seq<char>>,
    before_out: Seq<Seq<char>>,
    before_err: Seq<Seq<char>>,
)
    ensures
        progress.after(out, err).after(before_out, before_err) == progress.after(
            before_out + out,
            before_err + err,
        ),
{
    assert(before_out + (out + progress.turn.out) == (before_out + out) + progress.turn.out);
    assert(before_err + (err + progress.turn.err) == (before_err + err) + progress.turn.err);
}

} // verus!
