use vstd::prelude::*;

verus! {

/// A classified lexeme: its kind and the number of input bytes it covers.
///
/// It holds no text of its own, only what kind of lexeme was seen and how
/// long it was, so that a consumer can slice the input itself.
#[derive(Clone, Copy, Debug, PartialEq, Eq, Structural)]
pub struct Token {
    pub kind: TokenKind,
    pub len: u32,
}

impl Token {
    pub fn new(kind: TokenKind, len: u32) -> (r: Token)
        ensures
            r.kind == kind,
            r.len == len,
    {
        Token { kind, len }
    }
}

/// The lexeme classes of the language.
#[derive(Clone, Copy, Debug, PartialEq, Eq, Structural)]
pub enum TokenKind {
    /// "// comment"
    LineComment,
    /// "/* block comment */"
    ///
    /// Block comments nest, so `/* /* */` is still open after its only
    /// closer and comes out with `terminated: false`.
    BlockComment { terminated: bool },
    /// A run of whitespace characters.
    Whitespace,
    /// A numeric or string literal.
    Literal { kind: LiteralKind },
    /// ";"
    Semi,
    /// ","
    Comma,
    /// "."
    Dot,
    /// "("
    OpenParen,
    /// ")"
    CloseParen,
    /// "{"
    OpenBrace,
    /// "}"
    CloseBrace,
    /// "["
    OpenBracket,
    /// "]"
    CloseBracket,
    /// "@"
    At,
    /// "#"
    Pound,
    /// "~"
    Tilde,
    /// "?"
    Question,
    /// ":"
    Colon,
    /// "$"
    Dollar,
    /// "="
    Eq,
    /// "!"
    Bang,
    /// "<"
    Lt,
    /// ">"
    Gt,
    /// "&"
    And,
    /// "|"
    Or,
    /// "+"
    Plus,
    /// "-"
    Minus,
    /// "*"
    Star,
    /// "/"
    Slash,
    /// "^"
    Caret,
    /// "%"
    Percent,
    /// A character that starts no known lexeme, e.g. "№".
    Unknown,
}

/// The kinds of literal.
///
/// `Decimal`'s flag is set when the dot was followed by no fractional
/// digits (`444.`); the language has no exponent notation.
#[derive(Clone, Copy, Debug, PartialEq, Eq, Structural, PartialOrd, Ord)]
pub enum LiteralKind {
    Int,
    Decimal { empty_exponent: bool },
    Str { terminated: bool },
}

} // verus!
