//! Lexical units of a shell line.

use vstd::prelude::*;

verus! {

/// The classes of lexical units that the scanner tells apart.
#[derive(Clone, Copy, Debug, PartialEq, Eq, Structural)]
pub enum TokenType {
    /// `&&`
    AndAnd,
    /// `&`
    And,
    /// A word.
    Part,
    /// `$`
    DollarSign,
    /// `|`
    Pipe,
    /// `||`
    OrOr,
    /// The end of the line.
    Eof,
    /// `;`
    Semicolon,
    /// `{`
    LeftBrace,
    /// `}`
    RightBrace,
    /// `:-`
    ColonDash,
}

impl Default for TokenType {
    fn default() -> (kind: Self)
        ensures
            kind == TokenType::Eof,
    {
        TokenType::Eof
    }
}

impl TokenType {
    /// How a diagnostic names this class of token.
    pub open spec fn text(self) -> Seq<char> {
        match self {
            TokenType::AndAnd => "'&&'"@,
            TokenType::And => "'&'"@,
            TokenType::Part => "identifier"@,
            TokenType::DollarSign => "'$'"@,
            TokenType::Pipe => "'|'"@,
            TokenType::OrOr => "'||'"@,
            TokenType::Eof => "<eof>"@,
            TokenType::Semicolon => "';'"@,
            TokenType::LeftBrace => "'{'"@,
            TokenType::RightBrace => "'}'"@,
            TokenType::ColonDash => "':-'"@,
        }
    }

    /// The name of this class of token as diagnostics show it.
    pub fn to_string(&self) -> (s: String)
        ensures
            s@ == self.text(),
    {
        match self {
            TokenType::AndAnd => "'&&'".to_owned(),
            TokenType::And => "'&'".to_owned(),
            TokenType::Part => "identifier".to_owned(),
            TokenType::DollarSign => "'$'".to_owned(),
            TokenType::Pipe => "'|'".to_owned(),
            TokenType::OrOr => "'||'".to_owned(),
            TokenType::Eof => "<eof>".to_owned(),
            TokenType::Semicolon => "';'".to_owned(),
            TokenType::LeftBrace => "'{'".to_owned(),
            TokenType::RightBrace => "'}'".to_owned(),
            TokenType::ColonDash => "':-'".to_owned(),
        }
    }
}

/// One lexical unit: its class, its text, and the offset in the line at which
/// the scanner stood when it had read it.
#[derive(Debug)]
pub struct Token {
    pub location: usize,
    pub kind: TokenType,
    pub lexeme: String,
}

/// A token as contracts see it: the lexeme is a sequence of characters.
pub ghost struct TokenView {
    pub location: nat,
    pub kind: TokenType,
    pub lexeme: Seq<char>,
}

impl View for Token {
    type V = TokenView;

    open spec fn view(&self) -> TokenView {
        TokenView { location: self.location as nat, kind: self.kind, lexeme: self.lexeme@ }
    }
}

impl Token {
    #[must_use]
    pub fn new(kind: TokenType, lexeme: String, location: usize) -> (token: Self)
        ensures
            token == (Token { location, kind, lexeme }),
    {
        Self { location, kind, lexeme }
    }
}

impl Clone for Token {
    fn clone(&self) -> (token: Self)
        ensures
            token == *self,
    {
        Token { location: self.location, kind: self.kind, lexeme: self.lexeme.clone() }
    }
}

impl Default for Token {
    /// An end-of-line token at offset zero.
    fn default() -> (token: Self)
        ensures
            token@ == (TokenView { location: 0, kind: TokenType::Eof, lexeme: Seq::empty() }),
    {
        Token { location: 0, kind: TokenType::Eof, lexeme: String::new() }
    }
}

/// The views of `tokens`, in order.
pub open spec fn token_views(tokens: Seq<Token>) -> Seq<TokenView> {
    Seq::new(tokens.len(), |i: int| tokens[i]@)
}

/// A token stream as the scanner hands it over: not empty, and closed by an
/// end-of-line token.
pub open spec fn is_terminated(tokens: Seq<TokenView>) -> bool {
    tokens.len() > 0 && tokens.last().kind == TokenType::Eof
}

/// A terminated stream in which the closing token is the only end-of-line token.
pub open spec fn has_single_eof(tokens: Seq<TokenView>) -> bool {
    &&& is_terminated(tokens)
    &&& forall|i: int| 0 <= i < tokens.len() - 1 ==> (#[trigger] tokens[i]).kind != TokenType::Eof
}

} // verus!
