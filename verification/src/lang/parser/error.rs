//! What the parser reports when a line does not follow the grammar.

use crate::lang::tokens::{Token, TokenType, TokenView};
use crate::text::{join, joined, lemma_texts_push, push_text, texts};
use vstd::prelude::*;

verus! {

/// The two ways in which a line can fail to parse.
#[derive(Debug)]
pub enum ErrorKind {
    /// `found` stands where one of `expected` had to follow `preceding`.
    UnexpectedToken { found: Token, preceding: Token, expected: Vec<TokenType> },
    /// After `preceding`, a token of one of the classes `expected` is missing.
    RequiredTokenNotFound { preceding: Token, expected: Vec<TokenType> },
}

/// A parse error as contracts see it.
pub ghost enum ErrorKindView {
    UnexpectedToken { found: TokenView, preceding: TokenView, expected: Seq<TokenType> },
    RequiredTokenNotFound { preceding: TokenView, expected: Seq<TokenType> },
}

/// The names of the token classes `expected`, as diagnostics show them.
pub open spec fn names_of(expected: Seq<TokenType>) -> Seq<Seq<char>> {
    Seq::new(expected.len(), |i: int| expected[i].text())
}

/// Where a diagnostic says the trouble is: at the end of the line when
/// `at_end`, else after the text of the preceding token.
pub open spec fn place(at_end: bool, preceding: TokenView) -> Seq<char> {
    if at_end {
        "at end"@
    } else {
        "after \""@ + preceding.lexeme + "\""@
    }
}

impl ErrorKindView {
    /// The stable number of this kind of error, fit for an exit status.
    pub open spec fn code(self) -> i32 {
        match self {
            ErrorKindView::UnexpectedToken { .. } => 1,
            ErrorKindView::RequiredTokenNotFound { .. } => 2,
        }
    }

    /// The first line of the diagnostic.
    pub open spec fn summary(self) -> Seq<char> {
        match self {
            ErrorKindView::UnexpectedToken { found, .. } => "unexpected "@ + found.kind.text(),
            ErrorKindView::RequiredTokenNotFound { expected, .. } => "expected "@ + joined(
                names_of(expected),
                " or "@,
            ),
        }
    }

    /// The whole diagnostic: the summary, an empty line, and what was
    /// expected in place of what.
    pub open spec fn message(self) -> Seq<char> {
        match self {
            ErrorKindView::UnexpectedToken { found, preceding, expected } => self.summary()
                + "\n\nexpected "@ + joined(names_of(expected), " or "@) + ", not "@
                + found.kind.text() + " "@ + place(found.kind == TokenType::Eof, preceding),
            ErrorKindView::RequiredTokenNotFound { preceding, expected } => self.summary()
                + "\n\nexpected "@ + joined(names_of(expected), ","@) + " "@ + place(
                preceding.kind == TokenType::Eof,
                preceding,
            ),
        }
    }
}

impl View for ErrorKind {
    type V = ErrorKindView;

    open spec fn view(&self) -> ErrorKindView {
        match self {
            ErrorKind::UnexpectedToken { found, preceding, expected } => {
                ErrorKindView::UnexpectedToken {
                    found: found@,
                    preceding: preceding@,
                    expected: expected@,
                }
            },
            ErrorKind::RequiredTokenNotFound { preceding, expected } => {
                ErrorKindView::RequiredTokenNotFound { preceding: preceding@, expected: expected@ }
            },
        }
    }
}

fn copy_of(kinds: &Vec<TokenType>) -> (copy: Vec<TokenType>)
    ensures
        copy@ == kinds@,
{
    let mut copy: Vec<TokenType> = Vec::new();
    let mut i: usize = 0;
    while i < kinds.len()
        invariant
            i <= kinds.len(),
            copy@ == kinds@.take(i as int),
        decreases kinds.len() - i,
    {
        copy.push(kinds[i]);
        i += 1;
    }
    copy
}

fn names(kinds: &Vec<TokenType>) -> (names: Vec<String>)
    ensures
        texts(names@) == names_of(kinds@),
{
    let mut names: Vec<String> = Vec::new();
    let mut i: usize = 0;
    while i < kinds.len()
        invariant
            i <= kinds.len(),
            texts(names@) == names_of(kinds@.take(i as int)),
        decreases kinds.len() - i,
    {
        let name = kinds[i].to_string();
        proof {
            lemma_texts_push(names@, name);
            assert(names_of(kinds@.take(i + 1)) == names_of(kinds@.take(i as int)).push(name@));
        }
        names.push(name);
        i += 1;
    }
    assert(kinds@.take(kinds.len() as int) == kinds@);
    names
}

fn push_place(out: &mut String, at_end: bool, preceding: &Token)
    ensures
        final(out)@ == old(out)@ + place(at_end, preceding@),
{
    if at_end {
        push_text(out, "at end");
    } else {
        push_text(out, "after \"");
        push_text(out, preceding.lexeme.as_str());
        push_text(out, "\"");
        assert(out@ == old(out)@ + ("after \""@ + preceding.lexeme@ + "\""@));
    }
}

impl Clone for ErrorKind {
    fn clone(&self) -> (kind: Self)
        ensures
            kind@ == self@,
    {
        match self {
            ErrorKind::UnexpectedToken { found, preceding, expected } => {
                ErrorKind::UnexpectedToken {
                    found: found.clone(),
                    preceding: preceding.clone(),
                    expected: copy_of(expected),
                }
            },
            ErrorKind::RequiredTokenNotFound { preceding, expected } => {
                ErrorKind::RequiredTokenNotFound {
                    preceding: preceding.clone(),
                    expected: copy_of(expected),
                }
            },
        }
    }
}

impl ErrorKind {
    /// The stable number of this kind of error, fit for an exit status.
    #[must_use]
    pub fn code(self) -> (code: i32)
        ensures
            code == self@.code(),
            code == 1 || code == 2,
    {
        match self {
            ErrorKind::UnexpectedToken { .. } => 1,
            ErrorKind::RequiredTokenNotFound { .. } => 2,
        }
    }

    /// The first line of the diagnostic.
    pub fn to_string(&self) -> (s: String)
        ensures
            s@ == self@.summary(),
    {
        let mut s = String::new();
        match self {
            ErrorKind::UnexpectedToken { found, .. } => {
                push_text(&mut s, "unexpected ");
                push_text(&mut s, found.kind.to_string().as_str());
            },
            ErrorKind::RequiredTokenNotFound { expected, .. } => {
                push_text(&mut s, "expected ");
                let listed = join(names(expected).as_slice(), " or ");
                push_text(&mut s, listed.as_str());
            },
        }
        s
    }
}

/// A parse error.
#[derive(Debug)]
pub struct Error {
    kind: ErrorKind,
}

impl View for Error {
    type V = ErrorKindView;

    closed spec fn view(&self) -> ErrorKindView {
        self.kind@
    }
}

impl Error {
    /// What went wrong.
    #[must_use]
    pub fn kind(&self) -> (kind: ErrorKind)
        ensures
            kind@ == self@,
    {
        self.kind.clone()
    }

    #[must_use]
    pub fn new(kind: ErrorKind) -> (error: Self)
        ensures
            error@ == kind@,
    {
        Self { kind }
    }

    /// The whole diagnostic, as the shell shows it.
    pub fn to_string(&self) -> (s: String)
        ensures
            s@ == self@.message(),
    {
        let mut s = self.kind.to_string();
        push_text(&mut s, "\n\nexpected ");
        match &self.kind {
            ErrorKind::UnexpectedToken { found, preceding, expected } => {
                let listed = join(names(expected).as_slice(), " or ");
                push_text(&mut s, listed.as_str());
                push_text(&mut s, ", not ");
                push_text(&mut s, found.kind.to_string().as_str());
                push_text(&mut s, " ");
                push_place(&mut s, found.kind == TokenType::Eof, preceding);
            },
            ErrorKind::RequiredTokenNotFound { preceding, expected } => {
                let listed = join(names(expected).as_slice(), ",");
                push_text(&mut s, listed.as_str());
                push_text(&mut s, " ");
                push_place(&mut s, preceding.kind == TokenType::Eof, preceding);
            },
        }
        s
    }
}

} // verus!
