//! The scanner: from the characters of a line to a token stream.

use crate::lang::tokens::{has_single_eof, token_views, Token, TokenType, TokenView};
use crate::shell::{Shell, ShellView};
use crate::table::map_of;
use crate::text::{chars_of, decimal, decimal_of_code, push_text, string_of_range};
use vstd::prelude::*;

verus! {

/// Whether `c` is alphabetic or numeric in the sense of Unicode, as
/// `char::is_alphanumeric` of the standard library decides it.
pub uninterp spec fn alphanumeric(c: char) -> bool;

/// `char::is_alphanumeric` of the standard library looks the character up in
/// the Unicode tables; the answer depends on the character alone.
pub assume_specification[ char::is_alphanumeric ](c: char) -> (b: bool)
    ensures
        b == alphanumeric(c),
;

/// The characters that separate tokens and are never part of one.
pub open spec fn is_blank(c: char) -> bool {
    c == ' ' || c == '\n' || c == '\t' || c == '\r'
}

/// The two quote characters.
pub open spec fn is_quote(c: char) -> bool {
    c == '\'' || c == '"'
}

/// The characters that a word may go on with.
pub open spec fn is_part(c: char) -> bool {
    alphanumeric(c) || c == '_' || c == '=' || c == '\'' || c == '"' || c == '.' || c == '/'
        || c == '-'
}

/// Which quote is open while a word is read.
#[derive(Clone, Copy, Debug, PartialEq, Eq, Structural)]
pub enum QuoteType {
    /// No quote is open.
    Any,
    /// A `'` is open.
    Single,
    /// A `"` is open.
    Double,
}

impl QuoteType {
    /// The quote that `c` opens.
    pub open spec fn opened_by(c: char) -> QuoteType {
        if c == '\'' {
            QuoteType::Single
        } else if c == '"' {
            QuoteType::Double
        } else {
            QuoteType::Any
        }
    }

    /// The character that closes this quote.
    pub open spec fn mark(self) -> char {
        match self {
            QuoteType::Single => '\'',
            QuoteType::Double | QuoteType::Any => '"',
        }
    }

    fn from_char(c: char) -> (quote: QuoteType)
        ensures
            quote == QuoteType::opened_by(c),
    {
        if c == '\'' {
            QuoteType::Single
        } else if c == '"' {
            QuoteType::Double
        } else {
            QuoteType::Any
        }
    }

    fn into_char(self) -> (c: char)
        ensures
            c == self.mark(),
    {
        match self {
            QuoteType::Single => '\'',
            QuoteType::Double | QuoteType::Any => '"',
        }
    }
}

/// The quote that is open after `c` has been read while `quote` was open,
/// or `None` where `c` cannot go on the word.
///
/// Outside quotes a word goes on with word characters, and a quote character
/// opens that quote. Inside quotes it goes on with word characters and
/// spaces too, until the same quote character closes the quote.
pub open spec fn after_char(quote: QuoteType, c: char) -> Option<QuoteType> {
    if quote != QuoteType::Any {
        if c == quote.mark() {
            Some(QuoteType::Any)
        } else if is_part(c) || c == ' ' {
            Some(quote)
        } else {
            None
        }
    } else if is_quote(c) {
        Some(QuoteType::opened_by(c))
    } else if is_part(c) {
        Some(QuoteType::Any)
    } else {
        None
    }
}

/// The number of characters from `pos` on that go on the word being read.
pub open spec fn word_len(source: Seq<char>, pos: int, quote: QuoteType) -> nat
    decreases source.len() - pos,
{
    if pos < 0 || pos >= source.len() {
        0
    } else {
        match after_char(quote, source[pos]) {
            Some(next) => 1 + word_len(source, pos + 1, next),
            None => 0,
        }
    }
}

/// What the scanner makes of the character at some place: the number of
/// characters it reads beyond that one, and the token it emits, if any.
pub ghost struct Lexed {
    pub more: nat,
    pub token: Option<(TokenType, Seq<char>)>,
}

/// Whether the character after `pos` is `c`.
pub open spec fn followed_by(source: Seq<char>, pos: int, c: char) -> bool {
    pos + 1 < source.len() && source[pos + 1] == c
}

/// `text`, or what it is an alias of.
pub open spec fn alias_or(shell: ShellView, text: Seq<char>) -> Seq<char> {
    if map_of(shell.aliases).contains_key(text) {
        map_of(shell.aliases)[text]
    } else {
        text
    }
}

/// What the scanner makes of the character at `pos`, which is in the line.
pub open spec fn lex(source: Seq<char>, pos: int, shell: ShellView) -> Lexed {
    let c = source[pos];
    if c == '&' {
        if followed_by(source, pos, '&') {
            Lexed { more: 1, token: Some((TokenType::AndAnd, source.subrange(pos, pos + 2))) }
        } else {
            Lexed { more: 0, token: Some((TokenType::And, source.subrange(pos, pos + 1))) }
        }
    } else if c == '|' {
        if followed_by(source, pos, '|') {
            Lexed { more: 1, token: Some((TokenType::OrOr, source.subrange(pos, pos + 2))) }
        } else {
            Lexed { more: 0, token: Some((TokenType::Pipe, source.subrange(pos, pos + 1))) }
        }
    } else if c == '$' {
        if followed_by(source, pos, '?') {
            Lexed {
                more: 1,
                token: Some((TokenType::Part, decimal(shell.previous_exit_code as int))),
            }
        } else {
            Lexed { more: 0, token: Some((TokenType::DollarSign, source.subrange(pos, pos + 1))) }
        }
    } else if c == '{' {
        Lexed { more: 0, token: Some((TokenType::LeftBrace, source.subrange(pos, pos + 1))) }
    } else if c == '}' {
        Lexed { more: 0, token: Some((TokenType::RightBrace, source.subrange(pos, pos + 1))) }
    } else if is_blank(c) {
        Lexed { more: 0, token: None }
    } else if c == ':' {
        if followed_by(source, pos, '-') {
            Lexed { more: 1, token: Some((TokenType::ColonDash, source.subrange(pos, pos + 2))) }
        } else {
            Lexed { more: 0, token: None }
        }
    } else if c == '~' {
        let more = word_len(source, pos + 1, QuoteType::Any);
        Lexed {
            more,
            token: Some(
                (TokenType::Part, shell.home() + source.subrange(pos + 1, pos + 1 + more)),
            ),
        }
    } else if c == ';' {
        Lexed { more: 0, token: Some((TokenType::Semicolon, source.subrange(pos, pos + 1))) }
    } else {
        let more = word_len(source, pos + 1, QuoteType::opened_by(c));
        Lexed {
            more,
            token: Some(
                (TokenType::Part, alias_or(shell, source.subrange(pos, pos + 1 + more))),
            ),
        }
    }
}

/// The token that closes the stream of a line of `len` characters.
pub open spec fn eof_at(len: nat) -> TokenView {
    TokenView { location: len, kind: TokenType::Eof, lexeme: Seq::empty() }
}

/// The tokens of the line from `pos` on, closed by the end-of-line token.
/// A token is located at the place behind its last character.
pub open spec fn scan_from(source: Seq<char>, pos: int, shell: ShellView) -> Seq<TokenView>
    decreases source.len() - pos,
{
    if pos < 0 || pos >= source.len() {
        seq![eof_at(source.len())]
    } else {
        let lexed = lex(source, pos, shell);
        proof {
            lemma_lex_bound(source, pos, shell);
        }
        let rest = scan_from(source, pos + 1 + lexed.more, shell);
        match lexed.token {
            Some((kind, lexeme)) => seq![
                TokenView { location: (pos + 1 + lexed.more) as nat, kind, lexeme },
            ] + rest,
            None => rest,
        }
    }
}

/// The token stream of a line.
pub open spec fn scan(source: Seq<char>, shell: ShellView) -> Seq<TokenView> {
    scan_from(source, 0, shell)
}

/// A word never runs past the end of the line.
pub proof fn lemma_word_len_bound(source: Seq<char>, pos: int, quote: QuoteType)
    requires
        0 <= pos <= source.len(),
    ensures
        pos + word_len(source, pos, quote) <= source.len(),
    decreases source.len() - pos,
{
    if pos < source.len() {
        match after_char(quote, source[pos]) {
            Some(next) => lemma_word_len_bound(source, pos + 1, next),
            None => {},
        }
    }
}

/// The scanner never reads past the end of the line.
pub proof fn lemma_lex_bound(source: Seq<char>, pos: int, shell: ShellView)
    requires
        0 <= pos < source.len(),
    ensures
        pos + 1 + lex(source, pos, shell).more <= source.len(),
        match lex(source, pos, shell).token {
            Some((kind, _)) => kind != TokenType::Eof,
            None => true,
        },
{
    lemma_word_len_bound(source, pos + 1, QuoteType::Any);
    lemma_word_len_bound(source, pos + 1, QuoteType::opened_by(source[pos]));
}

/// Every token stream ends in an end-of-line token, and holds no other.
pub proof fn lemma_scan_single_eof(source: Seq<char>, pos: int, shell: ShellView)
    ensures
        has_single_eof(scan_from(source, pos, shell)),
    decreases source.len() - pos,
{
    if 0 <= pos < source.len() {
        let lexed = lex(source, pos, shell);
        lemma_lex_bound(source, pos, shell);
        lemma_scan_single_eof(source, pos + 1 + lexed.more, shell);
        let rest = scan_from(source, pos + 1 + lexed.more, shell);
        let all = scan_from(source, pos, shell);
        match lexed.token {
            Some((kind, lexeme)) => {
                assert(all.last() == rest.last());
                assert forall|i: int| 0 <= i < all.len() - 1 implies (#[trigger] all[i]).kind
                    != TokenType::Eof by {
                    if i > 0 {
                        assert(all[i] == rest[i - 1]);
                    }
                }
            },
            None => {},
        }
    }
}

/// A line of blanks scans to the end-of-line token alone.
pub proof fn lemma_scan_blank(source: Seq<char>, pos: int, shell: ShellView)
    requires
        forall|i: int| 0 <= i < source.len() ==> is_blank(#[trigger] source[i]),
    ensures
        scan_from(source, pos, shell) == seq![eof_at(source.len())],
    decreases source.len() - pos,
{
    if 0 <= pos < source.len() {
        assert(is_blank(source[pos]));
        lemma_scan_blank(source, pos + 1, shell);
    }
}

/// The characters that begin a word: all but the blanks and the characters
/// that begin another token.
pub open spec fn begins_word(c: char) -> bool {
    c != '&' && c != '|' && c != '$' && c != '{' && c != '}' && !is_blank(c) && c != ':' && c
        != '~' && c != ';'
}

/// The word that begins at `pos`, as it stands in the line.
pub open spec fn word_at(source: Seq<char>, pos: int) -> Seq<char> {
    source.subrange(
        pos,
        pos + 1 + word_len(source, pos + 1, QuoteType::opened_by(source[pos])),
    )
}

/// A word is emitted as it stands unless it is an alias. An alias is
/// replaced once: the token holds the text that the word stands for, whether
/// or not that text is an alias itself.
pub proof fn lemma_alias_is_replaced_once(source: Seq<char>, pos: int, shell: ShellView)
    requires
        0 <= pos < source.len(),
        begins_word(source[pos]),
    ensures
        lex(source, pos, shell).token == Some(
            (
                TokenType::Part,
                if map_of(shell.aliases).contains_key(word_at(source, pos)) {
                    map_of(shell.aliases)[word_at(source, pos)]
                } else {
                    word_at(source, pos)
                },
            ),
        ),
{
}

/// The state of one pass over a line.
pub struct Scanner {
    start: usize,
    current: usize,
    tokens: Vec<Token>,
    source: Vec<char>,
}

impl Scanner {
    /// The characters of the line.
    pub closed spec fn source(&self) -> Seq<char> {
        self.source@
    }

    spec fn in_line(&self) -> bool {
        self.start <= self.current <= self.source.len()
    }

    fn add_token(&mut self, kind: TokenType)
        requires
            old(self).in_line(),
        ensures
            final(self).source == old(self).source,
            final(self).start == old(self).start,
            final(self).current == old(self).current,
            token_views(final(self).tokens@) == token_views(old(self).tokens@).push(
                TokenView {
                    location: old(self).current as nat,
                    kind,
                    lexeme: old(self).source@.subrange(
                        old(self).start as int,
                        old(self).current as int,
                    ),
                },
            ),
    {
        let text = string_of_range(&self.source, self.start, self.current);
        self.add_token_with_lexeme(kind, text);
    }

    fn add_token_with_lexeme(&mut self, kind: TokenType, lexeme: String)
        ensures
            final(self).source == old(self).source,
            final(self).start == old(self).start,
            final(self).current == old(self).current,
            token_views(final(self).tokens@) == token_views(old(self).tokens@).push(
                TokenView { location: old(self).current as nat, kind, lexeme: lexeme@ },
            ),
    {
        let token = Token::new(kind, lexeme, self.current);
        self.tokens.push(token);
        assert(token_views(self.tokens@) =~= token_views(old(self).tokens@).push(token@));
    }

    fn advance(&mut self) -> (c: char)
        requires
            old(self).in_line(),
            old(self).current < old(self).source.len(),
        ensures
            final(self).source == old(self).source,
            final(self).start == old(self).start,
            final(self).tokens == old(self).tokens,
            final(self).current == old(self).current + 1,
            c == old(self).source@[old(self).current as int],
    {
        self.current += 1;
        self.source[self.current - 1]
    }

    fn is_at_end(&self) -> (at_end: bool)
        ensures
            at_end == (self.current >= self.source.len()),
    {
        self.current >= self.source.len()
    }

    fn is_part(c: char) -> (part: bool)
        ensures
            part == is_part(c),
    {
        c.is_alphanumeric() || c == '_' || c == '=' || c == '\'' || c == '"' || c == '.' || c
            == '/' || c == '-'
    }

    /// A scanner that stands at the beginning of `source`.
    #[must_use]
    pub fn new(source: &str) -> (scanner: Self)
        ensures
            scanner.source() == source@,
    {
        Self { start: 0, current: 0, tokens: Vec::new(), source: chars_of(source) }
    }

    /// Reads the rest of the word whose first character has been read, and
    /// emits it as one token: as what it is an alias of, where it is one.
    fn part(&mut self, quote: QuoteType, shell: &Shell)
        requires
            old(self).in_line(),
        ensures
            final(self).source == old(self).source,
            final(self).in_line(),
            final(self).current == old(self).current + word_len(
                old(self).source@,
                old(self).current as int,
                quote,
            ),
            token_views(final(self).tokens@) == token_views(old(self).tokens@).push(
                TokenView {
                    location: final(self).current as nat,
                    kind: TokenType::Part,
                    lexeme: alias_or(
                        shell@,
                        old(self).source@.subrange(
                            old(self).start as int,
                            final(self).current as int,
                        ),
                    ),
                },
            ),
    {
        let text = self.part_return_lexeme(self.start, quote);
        match shell.aliases.get(text.as_str()) {
            Some(value) => self.add_token_with_lexeme(TokenType::Part, value.clone()),
            None => self.add_token_with_lexeme(TokenType::Part, text),
        }
    }

    /// Reads on to the end of the word and returns the text from `start` to
    /// there.
    fn part_return_lexeme(&mut self, start: usize, quote: QuoteType) -> (text: String)
        requires
            old(self).in_line(),
            start <= old(self).current,
        ensures
            final(self).source == old(self).source,
            final(self).start == old(self).start,
            final(self).tokens == old(self).tokens,
            final(self).in_line(),
            final(self).current == old(self).current + word_len(
                old(self).source@,
                old(self).current as int,
                quote,
            ),
            text@ == old(self).source@.subrange(start as int, final(self).current as int),
    {
        let mut quote = quote;
        let ghost goal = self.current + word_len(self.source@, self.current as int, quote);
        let mut reading = true;
        while reading && !self.is_at_end()
            invariant
                self.source == old(self).source,
                self.start == old(self).start,
                self.tokens == old(self).tokens,
                self.in_line(),
                start <= self.current,
                reading ==> self.current + word_len(self.source@, self.current as int, quote)
                    == goal,
                !reading ==> self.current == goal,
            decreases self.source.len() - self.current + if reading {
                1int
            } else {
                0int
            },
        {
            let c = self.peek();
            match Self::after(quote, c) {
                Some(next) => {
                    quote = next;
                    self.advance();
                },
                None => {
                    reading = false;
                },
            }
        }
        string_of_range(&self.source, start, self.current)
    }

    fn after(quote: QuoteType, c: char) -> (next: Option<QuoteType>)
        ensures
            next == after_char(quote, c),
    {
        match quote {
            QuoteType::Any => {
                if c == '\'' || c == '"' {
                    Some(QuoteType::from_char(c))
                } else if Self::is_part(c) {
                    Some(QuoteType::Any)
                } else {
                    None
                }
            },
            _ => {
                if c == quote.into_char() {
                    Some(QuoteType::Any)
                } else if Self::is_part(c) || c == ' ' {
                    Some(quote)
                } else {
                    None
                }
            },
        }
    }

    fn peek(&self) -> (c: char)
        ensures
            c == if self.current < self.source.len() {
                self.source@[self.current as int]
            } else {
                '\0'
            },
    {
        if self.is_at_end() {
            '\0'
        } else {
            self.source[self.current]
        }
    }

    fn match_char(&mut self, expected: char) -> (found: bool)
        requires
            old(self).in_line(),
            old(self).current >= 1,
        ensures
            final(self).source == old(self).source,
            final(self).start == old(self).start,
            final(self).tokens == old(self).tokens,
            final(self).in_line(),
            found == followed_by(old(self).source@, old(self).current - 1, expected),
            final(self).current == old(self).current + if found {
                1int
            } else {
                0int
            },
    {
        if self.is_at_end() || self.source[self.current] != expected {
            false
        } else {
            self.current += 1;
            true
        }
    }

    /// Reads one character and what belongs to it, and emits its token.
    fn scan_token(&mut self, shell: &Shell)
        requires
            old(self).start == old(self).current < old(self).source.len(),
        ensures
            final(self).source == old(self).source,
            final(self).current <= final(self).source.len(),
            final(self).current == old(self).current + 1 + lex(
                old(self).source@,
                old(self).current as int,
                shell@,
            ).more,
            token_views(final(self).tokens@) == match lex(
                old(self).source@,
                old(self).current as int,
                shell@,
            ).token {
                Some((kind, lexeme)) => token_views(old(self).tokens@).push(
                    TokenView { location: final(self).current as nat, kind, lexeme },
                ),
                None => token_views(old(self).tokens@),
            },
    {
        let c = self.advance();
        if c == '&' {
            if self.match_char('&') {
                self.add_token(TokenType::AndAnd);
            } else {
                self.add_token(TokenType::And);
            }
        } else if c == '|' {
            if self.match_char('|') {
                self.add_token(TokenType::OrOr);
            } else {
                self.add_token(TokenType::Pipe);
            }
        } else if c == '$' {
            if self.match_char('?') {
                self.add_token_with_lexeme(
                    TokenType::Part,
                    decimal_of_code(shell.previous_exit_code),
                );
            } else {
                self.add_token(TokenType::DollarSign);
            }
        } else if c == '{' {
            self.add_token(TokenType::LeftBrace);
        } else if c == '}' {
            self.add_token(TokenType::RightBrace);
        } else if c == ' ' || c == '\n' || c == '\t' || c == '\r' {
        } else if c == ':' {
            if self.match_char('-') {
                self.add_token(TokenType::ColonDash);
            }
        } else if c == '~' {
            let mut text = match shell.environment.get("HOME") {
                Some(home) => home.clone(),
                None => String::new(),
            };
            let from = self.current;
            let tail = self.part_return_lexeme(from, QuoteType::Any);
            push_text(&mut text, tail.as_str());
            self.add_token_with_lexeme(TokenType::Part, text);
        } else if c == ';' {
            self.add_token(TokenType::Semicolon);
        } else {
            self.part(QuoteType::from_char(c), shell);
        }
    }

    /// Scans the whole line and returns its tokens. The stream is closed by
    /// one end-of-line token and holds no other.
    #[verifier::loop_isolation(false)]
    pub fn scan_tokens(&mut self, shell: &Shell) -> (tokens: Vec<Token>)
        ensures
            final(self).source() == old(self).source(),
            token_views(tokens@) == scan(old(self).source(), shell@),
            has_single_eof(token_views(tokens@)),
    {
        self.start = 0;
        self.current = 0;
        self.tokens = Vec::new();
        let ghost source = self.source@;
        let ghost all = scan(source, shell@);
        assert(token_views(self.tokens@) + scan_from(source, 0, shell@) == all);
        while !self.is_at_end()
            invariant
                self.source@ == source,
                self.current <= self.source.len(),
                token_views(self.tokens@) + scan_from(source, self.current as int, shell@) == all,
            decreases self.source.len() - self.current,
        {
            self.start = self.current;
            let ghost before = token_views(self.tokens@);
            let ghost pos = self.current as int;
            self.scan_token(shell);
            proof {
                let lexed = lex(source, pos, shell@);
                let rest = scan_from(source, pos + 1 + lexed.more, shell@);
                match lexed.token {
                    Some((kind, lexeme)) => {
                        let token = TokenView { location: (pos + 1 + lexed.more) as nat, kind, lexeme };
                        assert(before.push(token) + rest == before + (seq![token] + rest));
                    },
                    None => {},
                }
            }
        }
        self.tokens.push(Token::new(TokenType::Eof, String::new(), self.current));
        proof {
            assert(token_views(self.tokens@) == all);
            lemma_scan_single_eof(source, 0, shell@);
        }
        self.tokens.clone()
    }
}

} // verus!
