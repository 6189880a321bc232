//! What the shell asks of the operating system, and what comes back.
//!
//! The shell itself neither prints nor touches files or processes. A command
//! that needs the operating system yields a [`Request`]; the caller carries
//! it out and answers with a [`Reply`]. What a finished command has to say
//! goes into a [`Report`], line by line.

use crate::text::{clone_texts, texts};
use vstd::prelude::*;

verus! {

/// Something that only the operating system can do.
#[derive(Debug)]
pub enum Request {
    /// Make `path` the working directory, after checking that it exists.
    ChangeDirectory { path: String },
    /// Tell the working directory.
    WorkingDirectory,
    /// Read the lines of the history file that lies in `directory`.
    History { directory: String },
    /// End the shell's process with the status `code`. No answer is awaited.
    Exit { code: i32 },
    /// Start `program` with `args`, on the shell's own standard streams, and
    /// wait until it ends.
    Spawn { program: String, args: Vec<String> },
}

/// A request as contracts see it.
pub ghost enum RequestView {
    ChangeDirectory { path: Seq<char> },
    WorkingDirectory,
    History { directory: Seq<char> },
    Exit { code: i32 },
    Spawn { program: Seq<char>, args: Seq<Seq<char>> },
}

impl View for Request {
    type V = RequestView;

    open spec fn view(&self) -> RequestView {
        match self {
            Request::ChangeDirectory { path } => RequestView::ChangeDirectory { path: path@ },
            Request::WorkingDirectory => RequestView::WorkingDirectory,
            Request::History { directory } => RequestView::History { directory: directory@ },
            Request::Exit { code } => RequestView::Exit { code: *code },
            Request::Spawn { program, args } => RequestView::Spawn {
                program: program@,
                args: texts(args@),
            },
        }
    }
}

impl Clone for Request {
    fn clone(&self) -> (request: Self)
        ensures
            request@ == self@,
    {
        match self {
            Request::ChangeDirectory { path } => Request::ChangeDirectory { path: path.clone() },
            Request::WorkingDirectory => Request::WorkingDirectory,
            Request::History { directory } => Request::History { directory: directory.clone() },
            Request::Exit { code } => Request::Exit { code: *code },
            Request::Spawn { program, args } => Request::Spawn {
                program: program.clone(),
                args: clone_texts(args),
            },
        }
    }
}

/// What the operating system did with a request.
#[derive(Debug)]
pub enum Reply {
    /// To `ChangeDirectory`: whether the path exists, and, where it exists
    /// and the change failed all the same, what the system said.
    DirectoryChanged { exists: bool, failure: Option<String> },
    /// To `WorkingDirectory`: the directory, unless it cannot be told.
    WorkingDirectory { path: Option<String> },
    /// To `History`: the lines of the file, unless it cannot be read.
    History { lines: Option<Vec<String>> },
    /// To `Spawn`: the program ran and ended; `code` is its exit status, or
    /// `None` where a signal ended it.
    Exited { code: Option<i32> },
    /// To `Spawn`: there is no such program.
    NotFound,
    /// To `Spawn`: the program could not be started, for the reason given.
    SpawnFailed { message: String },
    /// To `Spawn`: the program was started but could not be waited for.
    WaitFailed { message: String },
}

/// A reply as contracts see it.
pub ghost enum ReplyView {
    DirectoryChanged { exists: bool, failure: Option<Seq<char>> },
    WorkingDirectory { path: Option<Seq<char>> },
    History { lines: Option<Seq<Seq<char>>> },
    Exited { code: Option<i32> },
    NotFound,
    SpawnFailed { message: Seq<char> },
    WaitFailed { message: Seq<char> },
}

/// The view of an optional string.
pub open spec fn text_of(s: Option<String>) -> Option<Seq<char>> {
    match s {
        Some(text) => Some(text@),
        None => None,
    }
}

impl View for Reply {
    type V = ReplyView;

    open spec fn view(&self) -> ReplyView {
        match self {
            Reply::DirectoryChanged { exists, failure } => ReplyView::DirectoryChanged {
                exists: *exists,
                failure: text_of(*failure),
            },
            Reply::WorkingDirectory { path } => ReplyView::WorkingDirectory {
                path: text_of(*path),
            },
            Reply::History { lines } => ReplyView::History {
                lines: match lines {
                    Some(lines) => Some(texts(lines@)),
                    None => None,
                },
            },
            Reply::Exited { code } => ReplyView::Exited { code: *code },
            Reply::NotFound => ReplyView::NotFound,
            Reply::SpawnFailed { message } => ReplyView::SpawnFailed { message: message@ },
            Reply::WaitFailed { message } => ReplyView::WaitFailed { message: message@ },
        }
    }
}

/// The view of a reply that may be missing.
pub open spec fn reply_of(reply: Option<Reply>) -> Option<ReplyView> {
    match reply {
        Some(reply) => Some(reply@),
        None => None,
    }
}

/// What a finished command leaves behind: its exit status, which is absent
/// where the command was interrupted, and the lines it has for the standard
/// output and for the diagnostic stream. Each line is written with a line
/// break behind it.
#[derive(Debug)]
pub struct Report {
    pub code: Option<i32>,
    pub out: Vec<String>,
    pub err: Vec<String>,
}

/// A report as contracts see it.
pub ghost struct ReportView {
    pub code: Option<i32>,
    pub out: Seq<Seq<char>>,
    pub err: Seq<Seq<char>>,
}

impl View for Report {
    type V = ReportView;

    open spec fn view(&self) -> ReportView {
        ReportView { code: self.code, out: texts(self.out@), err: texts(self.err@) }
    }
}

impl ReportView {
    /// The report of a command that ends with `code` and says nothing.
    pub open spec fn silent(code: Option<i32>) -> ReportView {
        ReportView { code, out: Seq::empty(), err: Seq::empty() }
    }

    /// The report of a command that succeeds and prints `line`.
    pub open spec fn printed(line: Seq<char>) -> ReportView {
        ReportView { code: Some(0), out: seq![line], err: Seq::empty() }
    }

    /// The report of a command that fails with `code` and the diagnostic `line`.
    pub open spec fn failed(code: i32, line: Seq<char>) -> ReportView {
        ReportView { code: Some(code), out: Seq::empty(), err: seq![line] }
    }
}

impl Report {
    /// The report of a command that ends with `code` and says nothing.
    pub fn silent(code: Option<i32>) -> (report: Self)
        ensures
            report@ == ReportView::silent(code),
    {
        let report = Report { code, out: Vec::new(), err: Vec::new() };
        assert(report@.out == Seq::<Seq<char>>::empty());
        assert(report@.err == Seq::<Seq<char>>::empty());
        report
    }

    /// The report of a command that succeeds and prints `line`.
    pub fn printed(line: String) -> (report: Self)
        ensures
            report@ == ReportView::printed(line@),
    {
        let mut out: Vec<String> = Vec::new();
        out.push(line);
        let report = Report { code: Some(0), out, err: Vec::new() };
        assert(report@.out == seq![line@]);
        assert(report@.err == Seq::<Seq<char>>::empty());
        report
    }

    /// The report of a command that fails with `code` and the diagnostic `line`.
    pub fn failed(code: i32, line: String) -> (report: Self)
        ensures
            report@ == ReportView::failed(code, line@),
    {
        let mut err: Vec<String> = Vec::new();
        err.push(line);
        let report = Report { code: Some(code), out: Vec::new(), err };
        assert(report@.err == seq![line@]);
        assert(report@.out == Seq::<Seq<char>>::empty());
        report
    }
}

/// What running a command comes to: it is done, or the operating system has
/// to act first.
#[derive(Debug)]
pub enum Step {
    Done(Report),
    Ask(Request),
}

/// A step as contracts see it.
pub ghost enum StepView {
    Done(ReportView),
    Ask(RequestView),
}

impl View for Step {
    type V = StepView;

    open spec fn view(&self) -> StepView {
        match self {
            Step::Done(report) => StepView::Done(report@),
            Step::Ask(request) => StepView::Ask(request@),
        }
    }
}

} // verus!
