//! The parser: from a token stream to the commands of a line.
//!
//! ```text
//! line      := chain? Eof
//! chain     := command ( AndAnd command )*
//! command   := ( Part | expansion )+
//! expansion := DollarSign Part
//!            | DollarSign LeftBrace Part ( ColonDash Part )? RightBrace
//! ```

use crate::command::{command_views, Command, CommandView};
use crate::lang::tokens::{is_terminated, token_views, Token, TokenType, TokenView};
use crate::shell::{value_or_empty, Environment};
use crate::text::{lemma_texts_push, texts};
use error::{Error, ErrorKind, ErrorKindView};
use vstd::prelude::*;

pub mod error;

verus! {

/// What a line parses to.
pub ghost enum Parsed {
    /// The commands of the line, in the order in which they run.
    Commands(Seq<CommandView>),
    /// The line uses a token that the grammar knows but the shell does not
    /// carry out: the whole line is given up without an error.
    Abandoned,
    /// The line does not follow the grammar.
    Failed(ErrorKindView),
}

/// What a `$` and the tokens after it expand to.
pub ghost enum Expanded {
    /// The word that takes the place of the expansion, and the number of
    /// tokens after the `$` that belong to it.
    Word { text: Seq<char>, used: nat },
    /// The expansion does not follow the grammar.
    Failed(ErrorKindView),
}

/// The class of the token at `pos`; past the stream it is the end of the line.
pub open spec fn kind_at(tokens: Seq<TokenView>, pos: int) -> TokenType {
    if 0 <= pos < tokens.len() {
        tokens[pos].kind
    } else {
        TokenType::Eof
    }
}

/// The classes of token that cannot begin the command after a `&&`.
pub open spec fn ends_chain(kind: TokenType) -> bool {
    kind == TokenType::Pipe || kind == TokenType::And || kind == TokenType::AndAnd || kind
        == TokenType::Eof || kind == TokenType::OrOr || kind == TokenType::Semicolon
}

/// The expansion whose first token after the `$` stands at `pos`.
///
/// A plain name expands to the value of that variable, or to nothing where
/// the variable is not set. In braces, a default may follow the name after
/// `:-`; it is taken as it stands where the variable is not set.
pub open spec fn expand(
    tokens: Seq<TokenView>,
    pos: int,
    environment: Map<Seq<char>, Seq<char>>,
) -> Expanded {
    match kind_at(tokens, pos) {
        TokenType::Part => Expanded::Word {
            text: value_or_empty(environment, tokens[pos].lexeme),
            used: 1,
        },
        TokenType::LeftBrace => {
            if kind_at(tokens, pos + 1) != TokenType::Part {
                Expanded::Failed(
                    ErrorKindView::RequiredTokenNotFound {
                        preceding: tokens[pos],
                        expected: seq![TokenType::Part],
                    },
                )
            } else {
                let name = tokens[pos + 1].lexeme;
                let dash = kind_at(tokens, pos + 2) == TokenType::ColonDash;
                let default = dash && kind_at(tokens, pos + 3) == TokenType::Part;
                let close: int = if default {
                    pos + 4
                } else if dash {
                    pos + 3
                } else {
                    pos + 2
                };
                if kind_at(tokens, close) != TokenType::RightBrace {
                    Expanded::Failed(
                        ErrorKindView::RequiredTokenNotFound {
                            preceding: tokens[close - 1],
                            expected: seq![TokenType::RightBrace],
                        },
                    )
                } else if environment.contains_key(name) {
                    Expanded::Word { text: environment[name], used: (close + 1 - pos) as nat }
                } else if default {
                    Expanded::Word { text: tokens[pos + 3].lexeme, used: (close + 1 - pos) as nat }
                } else {
                    Expanded::Word { text: Seq::empty(), used: (close + 1 - pos) as nat }
                }
            }
        },
        _ => Expanded::Failed(
            ErrorKindView::UnexpectedToken {
                found: tokens[pos],
                preceding: tokens[pos - 1],
                expected: seq![TokenType::Part, TokenType::LeftBrace],
            },
        ),
    }
}

/// The commands of a chain whose first command has the words `words` and
/// whose other commands are `rest`. A chain whose first command has no word
/// is the one command that does nothing.
pub open spec fn chain_of(words: Seq<Seq<char>>, rest: Seq<CommandView>) -> Seq<CommandView> {
    if words.len() == 0 {
        seq![CommandView::empty()]
    } else {
        seq![CommandView::of_words(words)] + rest
    }
}

/// What the tokens from `pos` on parse to, when the command being read has
/// the words `words` so far.
pub open spec fn parse_from(
    tokens: Seq<TokenView>,
    pos: int,
    environment: Map<Seq<char>, Seq<char>>,
    words: Seq<Seq<char>>,
) -> Parsed
    decreases tokens.len() - pos,
{
    if pos < 0 || pos >= tokens.len() {
        Parsed::Commands(chain_of(words, Seq::empty()))
    } else {
        match tokens[pos].kind {
            TokenType::Eof => Parsed::Commands(chain_of(words, Seq::empty())),
            TokenType::Part => parse_from(
                tokens,
                pos + 1,
                environment,
                words.push(tokens[pos].lexeme),
            ),
            TokenType::AndAnd => {
                if ends_chain(kind_at(tokens, pos + 1)) {
                    Parsed::Failed(
                        ErrorKindView::UnexpectedToken {
                            found: tokens[pos + 1],
                            preceding: tokens[pos],
                            expected: seq![TokenType::DollarSign, TokenType::Part],
                        },
                    )
                } else {
                    match parse_from(tokens, pos + 1, environment, Seq::empty()) {
                        Parsed::Commands(rest) => Parsed::Commands(chain_of(words, rest)),
                        other => other,
                    }
                }
            },
            TokenType::DollarSign => match expand(tokens, pos + 1, environment) {
                Expanded::Word { text, used } => parse_from(
                    tokens,
                    pos + 1 + used,
                    environment,
                    words.push(text),
                ),
                Expanded::Failed(error) => Parsed::Failed(error),
            },
            _ => Parsed::Abandoned,
        }
    }
}

/// What a whole token stream parses to.
pub open spec fn parse(tokens: Seq<TokenView>, environment: Map<Seq<char>, Seq<char>>) -> Parsed {
    parse_from(tokens, 0, environment, Seq::empty())
}

/// What the caller of the parser gets: an abandoned line has no commands.
pub open spec fn outcome(parsed: Parsed) -> Result<Seq<CommandView>, ErrorKindView> {
    match parsed {
        Parsed::Commands(commands) => Ok(commands),
        Parsed::Abandoned => Ok(Seq::empty()),
        Parsed::Failed(error) => Err(error),
    }
}

/// A cursor into a terminated token stream.
pub struct Parser {
    tokens: Vec<Token>,
    current: usize,
}

impl Parser {
    #[verifier::type_invariant]
    spec fn cursor_in_stream(self) -> bool {
        is_terminated(token_views(self.tokens@)) && self.current < self.tokens.len()
    }

    /// The stream that the parser reads.
    pub closed spec fn tokens(&self) -> Seq<TokenView> {
        token_views(self.tokens@)
    }

    /// The place of the next token to be read.
    pub closed spec fn position(&self) -> int {
        self.current as int
    }

    fn advance(&mut self)
        requires
            kind_at(old(self).tokens(), old(self).position()) != TokenType::Eof,
        ensures
            final(self).tokens() == old(self).tokens(),
            final(self).position() == old(self).position() + 1,
            final(self).position() < final(self).tokens().len(),
    {
        proof {
            use_type_invariant(&*self);
        }
        self.current += 1;
    }

    fn check(&self, kind: TokenType) -> (found: bool)
        ensures
            found == (kind != TokenType::Eof && kind_at(self.tokens(), self.position()) == kind),
    {
        if self.is_at_end() {
            false
        } else {
            self.peek().kind == kind
        }
    }

    fn check_next(&self, kind: TokenType) -> (found: bool)
        ensures
            found == (kind_at(self.tokens(), self.position()) != TokenType::Eof && kind_at(
                self.tokens(),
                self.position() + 1,
            ) == kind),
    {
        if self.is_at_end() {
            false
        } else {
            self.peek_next().kind == kind
        }
    }

    fn is_at_end(&self) -> (at_end: bool)
        ensures
            at_end == (kind_at(self.tokens(), self.position()) == TokenType::Eof),
            0 <= self.position() < self.tokens().len(),
    {
        self.peek().kind == TokenType::Eof
    }

    fn match_next(&mut self, kind: TokenType) -> (found: bool)
        ensures
            final(self).tokens() == old(self).tokens(),
            found == (kind_at(old(self).tokens(), old(self).position()) != TokenType::Eof
                && kind_at(old(self).tokens(), old(self).position() + 1) == kind),
            final(self).position() == old(self).position() + if found {
                1int
            } else {
                0int
            },
    {
        if self.check_next(kind) {
            self.advance();
            true
        } else {
            false
        }
    }

    /// A parser that stands at the first token of `tokens`.
    #[must_use]
    pub fn new(tokens: Vec<Token>) -> (parser: Self)
        requires
            is_terminated(token_views(tokens@)),
        ensures
            parser.tokens() == token_views(tokens@),
            parser.position() == 0,
    {
        Self { tokens, current: 0 }
    }

    /// Parses the tokens from the cursor on into the commands of the line.
    ///
    /// # Errors
    ///
    /// Returns the error that `parse_from` names where the tokens do not
    /// follow the grammar.
    pub fn parse_tokens(&mut self, environment: &Environment) -> (result: Result<
        Vec<Command>,
        Error,
    >)
        ensures
            final(self).tokens() == old(self).tokens(),
            match result {
                Ok(commands) => outcome(
                    parse_from(
                        old(self).tokens(),
                        old(self).position(),
                        environment@,
                        Seq::empty(),
                    ),
                ) == Ok::<Seq<CommandView>, ErrorKindView>(command_views(commands@)),
                Err(error) => outcome(
                    parse_from(
                        old(self).tokens(),
                        old(self).position(),
                        environment@,
                        Seq::empty(),
                    ),
                ) == Err::<Seq<CommandView>, ErrorKindView>(error@),
            },
    {
        match self.parse_chain(environment) {
            Ok(Some(commands)) => Ok(commands),
            Ok(None) => {
                let none: Vec<Command> = Vec::new();
                assert(command_views(none@) == Seq::<CommandView>::empty());
                Ok(none)
            },
            Err(error) => Err(error),
        }
    }

    #[verifier::loop_isolation(false)]
    fn parse_chain(&mut self, environment: &Environment) -> (result: Result<
        Option<Vec<Command>>,
        Error,
    >)
        ensures
            final(self).tokens() == old(self).tokens(),
            match result {
                Ok(Some(commands)) => parse_from(
                    old(self).tokens(),
                    old(self).position(),
                    environment@,
                    Seq::empty(),
                ) == Parsed::Commands(command_views(commands@)),
                Ok(None) => parse_from(
                    old(self).tokens(),
                    old(self).position(),
                    environment@,
                    Seq::empty(),
                ) == Parsed::Abandoned,
                Err(error) => parse_from(
                    old(self).tokens(),
                    old(self).position(),
                    environment@,
                    Seq::empty(),
                ) == Parsed::Failed(error@),
            },
        decreases old(self).tokens().len() - old(self).position(),
    {
        let ghost tokens = self.tokens();
        let ghost goal = parse_from(tokens, self.position(), environment@, Seq::empty());
        let mut words: Vec<String> = Vec::new();
        assert(texts(words@) == Seq::<Seq<char>>::empty());
        while !self.is_at_end()
            invariant
                self.tokens() == tokens,
                old(self).position() <= self.position(),
                parse_from(tokens, self.position(), environment@, texts(words@)) == goal,
            decreases tokens.len() - self.position(),
        {
            self.advance();
            let token = self.previous().clone();
            match token.kind {
                TokenType::Part => {
                    proof {
                        lemma_texts_push(words@, token.lexeme);
                    }
                    words.push(token.lexeme);
                },
                TokenType::AndAnd => {
                    let next = self.peek().clone();
                    if Self::ends_chain(next.kind) {
                        let expected = vec![TokenType::DollarSign, TokenType::Part];
                        assert(expected@ == seq![TokenType::DollarSign, TokenType::Part]);
                        return Err(
                            Error::new(
                                ErrorKind::UnexpectedToken {
                                    found: next,
                                    preceding: token,
                                    expected,
                                },
                            ),
                        );
                    }
                    match self.parse_chain(environment) {
                        Ok(Some(rest)) => {
                            return Ok(Some(Self::chain(words, rest)));
                        },
                        Ok(None) => {
                            return Ok(None);
                        },
                        Err(error) => {
                            return Err(error);
                        },
                    }
                },
                TokenType::DollarSign => match self.expansion(environment) {
                    Ok(word) => {
                        proof {
                            lemma_texts_push(words@, word);
                        }
                        words.push(word);
                    },
                    Err(error) => {
                        return Err(error);
                    },
                },
                _ => {
                    return Ok(None);
                },
            }
        }
        let rest: Vec<Command> = Vec::new();
        assert(command_views(rest@) == Seq::<CommandView>::empty());
        Ok(Some(Self::chain(words, rest)))
    }

    fn ends_chain(kind: TokenType) -> (ends: bool)
        ensures
            ends == ends_chain(kind),
    {
        match kind {
            TokenType::Pipe
            | TokenType::And
            | TokenType::AndAnd
            | TokenType::Eof
            | TokenType::OrOr
            | TokenType::Semicolon => true,
            _ => false,
        }
    }

    fn chain(words: Vec<String>, rest: Vec<Command>) -> (commands: Vec<Command>)
        ensures
            command_views(commands@) == chain_of(texts(words@), command_views(rest@)),
    {
        let mut words = words;
        let mut commands = rest;
        if words.len() == 0 {
            let mut single: Vec<Command> = Vec::new();
            single.push(Command::default());
            assert(command_views(single@) == seq![CommandView::empty()]);
            single
        } else {
            let ghost all = texts(words@);
            let keyword = words.remove(0);
            assert(texts(words@) == all.subrange(1, all.len() as int));
            let first = Command::new(keyword, words);
            assert(first@ == CommandView::of_words(all));
            commands.insert(0, first);
            assert(command_views(commands@) == seq![first@] + command_views(rest@));
            commands
        }
    }

    fn expansion(&mut self, environment: &Environment) -> (result: Result<String, Error>)
        requires
            old(self).position() >= 1,
        ensures
            final(self).tokens() == old(self).tokens(),
            match result {
                Ok(word) => final(self).position() > old(self).position() && expand(
                    old(self).tokens(),
                    old(self).position(),
                    environment@,
                ) == (Expanded::Word {
                    text: word@,
                    used: (final(self).position() - old(self).position()) as nat,
                }),
                Err(error) => expand(old(self).tokens(), old(self).position(), environment@)
                    == Expanded::Failed(error@),
            },
    {
        let token = self.peek().clone();
        match token.kind {
            TokenType::Part => {
                self.advance();
                Ok(Self::value_of(environment, token.lexeme.as_str(), None))
            },
            TokenType::LeftBrace => {
                if !self.match_next(TokenType::Part) {
                    let expected = vec![TokenType::Part];
                    assert(expected@ == seq![TokenType::Part]);
                    return Err(
                        Error::new(
                            ErrorKind::RequiredTokenNotFound { preceding: token, expected },
                        ),
                    );
                }
                let name = self.peek().lexeme.clone();
                self.advance();
                let mut default: Option<String> = None;
                if self.match_kind(TokenType::ColonDash) && self.match_kind(TokenType::Part) {
                    default = Some(self.previous().lexeme.clone());
                }
                if !self.match_kind(TokenType::RightBrace) {
                    let expected = vec![TokenType::RightBrace];
                    assert(expected@ == seq![TokenType::RightBrace]);
                    return Err(
                        Error::new(
                            ErrorKind::RequiredTokenNotFound {
                                preceding: self.peek_back().clone(),
                                expected,
                            },
                        ),
                    );
                }
                Ok(Self::value_of(environment, name.as_str(), default))
            },
            _ => {
                let expected = vec![TokenType::Part, TokenType::LeftBrace];
                assert(expected@ == seq![TokenType::Part, TokenType::LeftBrace]);
                Err(
                    Error::new(
                        ErrorKind::UnexpectedToken {
                            found: token,
                            preceding: self.peek_back().clone(),
                            expected,
                        },
                    ),
                )
            },
        }
    }

    fn value_of(environment: &Environment, name: &str, default: Option<String>) -> (value: String)
        ensures
            value@ == if environment@.contains_key(name@) {
                environment@[name@]
            } else {
                match default {
                    Some(text) => text@,
                    None => Seq::empty(),
                }
            },
    {
        match environment.get(name) {
            Some(value) => value.clone(),
            None => match default {
                Some(text) => text,
                None => String::new(),
            },
        }
    }

    fn peek(&self) -> (token: &Token)
        ensures
            0 <= self.position() < self.tokens().len(),
            token@ == self.tokens()[self.position()],
    {
        proof {
            use_type_invariant(self);
        }
        &self.tokens[self.current]
    }

    fn peek_back(&self) -> (token: &Token)
        requires
            self.position() >= 1,
        ensures
            token@ == self.tokens()[self.position() - 1],
    {
        self.previous()
    }

    fn peek_next(&self) -> (token: &Token)
        requires
            kind_at(self.tokens(), self.position()) != TokenType::Eof,
        ensures
            self.position() + 1 < self.tokens().len(),
            token@ == self.tokens()[self.position() + 1],
    {
        proof {
            use_type_invariant(self);
        }
        &self.tokens[self.current + 1]
    }

    fn previous(&self) -> (token: &Token)
        requires
            self.position() >= 1,
        ensures
            token@ == self.tokens()[self.position() - 1],
    {
        proof {
            use_type_invariant(self);
        }
        &self.tokens[self.current - 1]
    }

    fn match_kind(&mut self, kind: TokenType) -> (found: bool)
        ensures
            final(self).tokens() == old(self).tokens(),
            found == (kind != TokenType::Eof && kind_at(old(self).tokens(), old(self).position())
                == kind),
            final(self).position() == old(self).position() + if found {
                1int
            } else {
                0int
            },
    {
        if self.check(kind) {
            self.advance();
            true
        } else {
            false
        }
    }
}

} // verus!
