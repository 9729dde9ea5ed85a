//! Tokens: the lexemes of a GraphQL document.
use vstd::prelude::*;
use crate::seqs::concat;
use crate::text::utf8_len;

verus! {

/// The kind of a token.
#[derive(Clone, Copy, PartialEq, Eq, Structural, Debug, Hash)]
pub enum TokenKind {
    /// `!`
    Bang,
    /// `$`
    Dollar,
    /// `(`
    LParen,
    /// `)`
    RParen,
    /// `...`
    Spread,
    /// `:`
    Colon,
    /// `=`
    Equal,
    /// `@`
    At,
    /// `[`
    LBracket,
    /// `]`
    RBracket,
    /// `{`
    LBrace,
    /// `}`
    RBrace,
    /// `|`
    Pipe,
    /// A name; keywords are names too.
    Name,
    /// A string literal, quotes included.
    StringValue,
    /// An integer literal.
    Int,
    /// A floating-point literal.
    Float,
    /// A maximal run of spaces, tabs and line breaks.
    Whitespace,
    /// A `#` comment up to the end of its line.
    Comment,
    /// `,`
    Comma,
    /// The end of the input.
    Eof,
}

impl TokenKind {
    /// Whitespace, comments and commas carry no meaning in GraphQL.
    pub open spec fn is_trivia(self) -> bool {
        self == TokenKind::Whitespace || self == TokenKind::Comment || self == TokenKind::Comma
    }

    /// The kinds of token with which a value can start.
    pub open spec fn starts_value(self) -> bool {
        self == TokenKind::Dollar || self == TokenKind::Int || self == TokenKind::Float || self
            == TokenKind::StringValue || self == TokenKind::Name || self == TokenKind::LBracket
            || self == TokenKind::LBrace
    }

    /// Whether a value can start with a token of this kind.
    pub fn can_start_value(self) -> (r: bool)
        ensures
            r == self.starts_value(),
    {
        self == TokenKind::Dollar || self == TokenKind::Int || self == TokenKind::Float || self
            == TokenKind::StringValue || self == TokenKind::Name || self == TokenKind::LBracket
            || self == TokenKind::LBrace
    }

    /// Whether tokens of this kind are trivia.
    pub fn trivia(self) -> (r: bool)
        ensures
            r == self.is_trivia(),
    {
        self == TokenKind::Whitespace || self == TokenKind::Comment || self == TokenKind::Comma
    }
}

/// What a token is, seen as a value: its kind, its text and the byte offset
/// at which it starts.
pub struct TokenView {
    pub kind: TokenKind,
    pub data: Seq<char>,
    pub index: nat,
}

/// A token of the input: its kind, the exact text it was read from and the
/// byte offset of that text in the input.
#[derive(Clone, Debug)]
pub struct Token {
    pub kind: TokenKind,
    pub data: String,
    pub index: usize,
}

impl View for Token {
    type V = TokenView;

    open spec fn view(&self) -> TokenView {
        TokenView { kind: self.kind, data: self.data@, index: self.index as nat }
    }
}

impl Token {
    pub fn new(kind: TokenKind, data: String, index: usize) -> (t: Token)
        ensures
            t@ == (TokenView { kind, data: data@, index: index as nat }),
    {
        Token { kind, data, index }
    }

    /// The kind of the token.
    pub fn kind(&self) -> (k: TokenKind)
        ensures
            k == self@.kind,
    {
        self.kind
    }

    /// The text of the token, exactly as it stands in the input.
    pub fn data(&self) -> (s: &str)
        ensures
            s@ == self@.data,
    {
        self.data.as_str()
    }

    /// The byte offset in the input at which the token starts.
    pub fn index(&self) -> (i: usize)
        ensures
            i == self@.index,
    {
        self.index
    }

    /// A copy of the token.
    pub fn duplicate(&self) -> (t: Token)
        ensures
            t@ == self@,
    {
        Token { kind: self.kind, data: self.data.clone(), index: self.index }
    }
}

/// The views of a sequence of tokens.
pub open spec fn token_views(tokens: Seq<Token>) -> Seq<TokenView> {
    Seq::new(tokens.len(), |i: int| tokens[i]@)
}

/// The texts of a sequence of tokens.
pub open spec fn token_texts(tokens: Seq<TokenView>) -> Seq<Seq<char>> {
    Seq::new(tokens.len(), |i: int| tokens[i].data)
}

/// The texts of a sequence of tokens, one after the other.
pub open spec fn token_text(tokens: Seq<TokenView>) -> Seq<char> {
    concat(token_texts(tokens))
}

/// The index of the `n`-th token, counted from one, that stands at or behind
/// `i` and is not trivia.
pub open spec fn nth_significant(tokens: Seq<TokenView>, i: int, n: nat) -> Option<int>
    decreases tokens.len() - i,
{
    if i < 0 || i >= tokens.len() {
        None
    } else if tokens[i].kind.is_trivia() {
        nth_significant(tokens, i + 1, n)
    } else if n <= 1 {
        Some(i)
    } else {
        nth_significant(tokens, i + 1, (n - 1) as nat)
    }
}

/// A token sequence as a lexer hands it out: the end of the input comes last
/// and only there, every other token has text, and the tokens lie in the
/// input one behind the other.
pub open spec fn is_stream(tokens: Seq<TokenView>) -> bool {
    &&& tokens.len() >= 1
    &&& tokens.last().kind == TokenKind::Eof
    &&& forall|i: int| 0 <= i < tokens.len() - 1 ==> (#[trigger] tokens[i]).kind != TokenKind::Eof
    &&& forall|i: int, j: int|
        0 <= i < j < tokens.len() ==> (#[trigger] tokens[i]).index + utf8_len(tokens[i].data) <= (
        #[trigger] tokens[j]).index
}

} // verus!
