//! What holds of the shell as a whole, proved from the definitions of its
//! parts.

use crate::builtin::{dispatch, Builtin};
use crate::command::{
    advance, conclude, interpret, proceed, CommandView, NextView, Progress, RunView, TurnView,
};
use crate::host::{ReplyView, ReportView, StepView};
use crate::lang::parser::error::ErrorKindView;
use crate::lang::parser::{chain_of, expand, kind_at, parse, parse_from, Expanded, Parsed};
use crate::lang::tokens::{TokenType, TokenView};
use crate::shell::value_or_empty;
use crate::lang::scanner::{eof_at, is_blank, lemma_scan_blank, scan};
use crate::shell::ShellView;
use crate::text::joined;
use crate::SIGINT_EXIT_CODE;
use vstd::prelude::*;

verus! {

/// The empty keyword names no builtin.
pub proof fn lemma_empty_keyword_names_no_builtin()
    ensures
        Builtin::named(Seq::empty()) is None,
{
    reveal_strlit("alias");
    reveal_strlit("echo");
    reveal_strlit("exit");
    reveal_strlit("bye");
    reveal_strlit("builtin");
    reveal_strlit("history");
    reveal_strlit("cd");
    reveal_strlit("chdir");
    reveal_strlit("pwd");
    assert("alias"@.len() == 5);
    assert("echo"@.len() == 4);
    assert("exit"@.len() == 4);
    assert("bye"@.len() == 3);
    assert("builtin"@.len() == 7);
    assert("history"@.len() == 7);
    assert("cd"@.len() == 2);
    assert("chdir"@.len() == 5);
    assert("pwd"@.len() == 3);
}

/// A line of nothing but blanks parses to the one command that does
/// nothing, and running it ends the line with status zero: nothing is
/// printed, nothing is asked of the operating system, and the shell keeps
/// its aliases and its environment.
pub proof fn lemma_blank_line_does_nothing(source: Seq<char>, shell: ShellView)
    requires
        forall|i: int| 0 <= i < source.len() ==> is_blank(#[trigger] source[i]),
    ensures
        scan(source, shell) == seq![eof_at(source.len())],
        parse(scan(source, shell), shell.environment) == Parsed::Commands(
            seq![CommandView::empty()],
        ),
        proceed(seq![CommandView::empty()], 0, shell) == (Progress {
            turn: TurnView {
                out: Seq::empty(),
                err: Seq::empty(),
                next: NextView::Finished { code: 0 },
            },
            run: RunView {
                commands: seq![CommandView::empty()],
                cursor: 1,
                pending: None,
                status: Some(0),
            },
            shell: ShellView { previous_exit_code: 0, ..shell },
        }),
{
    lemma_scan_blank(source, 0, shell);
    lemma_empty_keyword_names_no_builtin();
    let commands = seq![CommandView::empty()];
    let command = CommandView::empty();
    assert(command.words()[0] == Seq::<char>::empty());
    assert(dispatch(command.words(), shell) is Err);
    assert(interpret(command, shell).step == StepView::Done(ReportView::silent(Some(0))));
    assert(commands[0] == command);
    let after = proceed(commands, 1, shell);
    assert(after.turn.out == Seq::<Seq<char>>::empty());
    assert(Seq::<Seq<char>>::empty() + after.turn.out == Seq::<Seq<char>>::empty());
    assert(shell == (ShellView { aliases: shell.aliases, ..shell }));
}

/// The lexemes of the tokens from `from` up to `to`.
pub open spec fn lexemes(tokens: Seq<TokenView>, from: int, to: int) -> Seq<Seq<char>> {
    Seq::new((to - from) as nat, |i: int| tokens[from + i].lexeme)
}

/// Words and nothing else parse to one command: where the tokens from `pos`
/// on are words up to an end-of-line token at `end`, the line is the one
/// command that the words read so far and those words spell.
pub proof fn lemma_words_parse_to_one_command(
    tokens: Seq<TokenView>,
    pos: int,
    end: int,
    environment: Map<Seq<char>, Seq<char>>,
    words: Seq<Seq<char>>,
)
    requires
        0 <= pos <= end < tokens.len(),
        forall|i: int| pos <= i < end ==> (#[trigger] tokens[i]).kind == TokenType::Part,
        tokens[end].kind == TokenType::Eof,
    ensures
        parse_from(tokens, pos, environment, words) == Parsed::Commands(
            chain_of(words + lexemes(tokens, pos, end), Seq::empty()),
        ),
    decreases end - pos,
{
    if pos == end {
        assert(words + lexemes(tokens, pos, end) == words);
    } else {
        assert(tokens[pos].kind == TokenType::Part);
        lemma_words_parse_to_one_command(
            tokens,
            pos + 1,
            end,
            environment,
            words.push(tokens[pos].lexeme),
        );
        assert(words.push(tokens[pos].lexeme) + lexemes(tokens, pos + 1, end) == words + lexemes(
            tokens,
            pos,
            end,
        ));
    }
}

/// `$NAME` expands to the value of `NAME`, or to the empty word where `NAME`
/// is not set.
pub proof fn lemma_name_expands_to_its_value(
    tokens: Seq<TokenView>,
    pos: int,
    environment: Map<Seq<char>, Seq<char>>,
)
    requires
        kind_at(tokens, pos) == TokenType::Part,
    ensures
        expand(tokens, pos, environment) == (Expanded::Word {
            text: value_or_empty(environment, tokens[pos].lexeme),
            used: 1,
        }),
{
}

/// `${NAME:-default}` expands to the value of `NAME` where `NAME` is set,
/// and to `default`, as it stands, where it is not.
pub proof fn lemma_default_stands_in_for_unset(
    tokens: Seq<TokenView>,
    pos: int,
    environment: Map<Seq<char>, Seq<char>>,
)
    requires
        kind_at(tokens, pos) == TokenType::LeftBrace,
        kind_at(tokens, pos + 1) == TokenType::Part,
        kind_at(tokens, pos + 2) == TokenType::ColonDash,
        kind_at(tokens, pos + 3) == TokenType::Part,
        kind_at(tokens, pos + 4) == TokenType::RightBrace,
    ensures
        expand(tokens, pos, environment) == (Expanded::Word {
            text: if environment.contains_key(tokens[pos + 1].lexeme) {
                environment[tokens[pos + 1].lexeme]
            } else {
                tokens[pos + 3].lexeme
            },
            used: 5,
        }),
{
}

/// A brace that is not closed is an error that asks for the closing brace
/// and names the token before the place where it is missing.
pub proof fn lemma_open_brace_is_an_error(
    tokens: Seq<TokenView>,
    pos: int,
    environment: Map<Seq<char>, Seq<char>>,
)
    requires
        kind_at(tokens, pos) == TokenType::LeftBrace,
        kind_at(tokens, pos + 1) == TokenType::Part,
        kind_at(tokens, pos + 2) != TokenType::ColonDash,
        kind_at(tokens, pos + 2) != TokenType::RightBrace,
    ensures
        expand(tokens, pos, environment) == Expanded::Failed(
            ErrorKindView::RequiredTokenNotFound {
                preceding: tokens[pos + 1],
                expected: seq![TokenType::RightBrace],
            },
        ),
{
}

/// The status with which a line ends when one of its commands leaves
/// `code`: that status, or the status of an interruption where the command
/// left none.
pub open spec fn final_status(code: Option<i32>) -> i32 {
    match code {
        Some(code) => code,
        None => SIGINT_EXIT_CODE,
    }
}

/// A chain stops at the first command that does not succeed. Once a command
/// has left a report whose status is not zero, the line is done with that
/// status, which the shell keeps; only the lines of that report are written;
/// no later command is started, whatever is handed to the run from then on.
pub proof fn lemma_chain_stops_at_failure(
    commands: Seq<CommandView>,
    cursor: nat,
    shell: ShellView,
    report: ReportView,
    later: Option<ReplyView>,
)
    requires
        report.code != Some(0i32),
    ensures
        conclude(commands, cursor, shell, report).turn == (TurnView {
            out: report.out,
            err: report.err,
            next: NextView::Finished { code: final_status(report.code) },
        }),
        conclude(commands, cursor, shell, report).shell == (ShellView {
            previous_exit_code: final_status(report.code),
            ..shell
        }),
        conclude(commands, cursor, shell, report).run.status == Some(final_status(report.code)),
        advance(conclude(commands, cursor, shell, report).run, shell, later) == (Progress {
            turn: TurnView {
                out: Seq::empty(),
                err: Seq::empty(),
                next: NextView::Finished { code: final_status(report.code) },
            },
            run: conclude(commands, cursor, shell, report).run,
            shell,
        }),
{
    assert(report.out + Seq::<Seq<char>>::empty() == report.out);
    assert(report.err + Seq::<Seq<char>>::empty() == report.err);
}

/// After a command that succeeds, the next command of the chain runs, in
/// the shell as the first left it, and what the first has written stands
/// before what follows.
pub proof fn lemma_chain_goes_on_after_success(
    commands: Seq<CommandView>,
    cursor: nat,
    shell: ShellView,
    report: ReportView,
)
    requires
        report.code == Some(0i32),
        cursor < commands.len(),
    ensures
        conclude(commands, cursor, shell, report) == proceed(commands, cursor + 1, shell).after(
            report.out,
            report.err,
        ),
{
}

/// `echo` prints its arguments with one space between neighbours, succeeds,
/// and leaves the shell as it was.
pub proof fn lemma_echo_prints_its_arguments(args: Seq<Seq<char>>, shell: ShellView)
    ensures
        interpret(CommandView { keyword: "echo"@, args }, shell).step == StepView::Done(
            ReportView::printed(joined(args, " "@)),
        ),
        interpret(CommandView { keyword: "echo"@, args }, shell).aliases == shell.aliases,
{
    reveal_strlit("alias");
    reveal_strlit("echo");
    assert("alias"@.len() == 5);
    assert("echo"@.len() == 4);
    let command = CommandView { keyword: "echo"@, args };
    let words = command.words();
    assert(words[0] == "echo"@);
    assert(Builtin::named(words[0]) == Some(Builtin::Echo));
    assert(words.subrange(1, words.len() as int) == args);
}

} // verus!
