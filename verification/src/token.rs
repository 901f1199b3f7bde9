//! The token model: what the lexer hands to its caller.

use vstd::prelude::*;

verus! {

/// How a comment is meant to be read.
#[derive(Debug, Clone, Copy, PartialEq, Eq, Structural)]
pub enum CommentKind {
    /// An ordinary comment.
    Normal,
    /// Documentation for the item that follows.
    OuterDoc,
    /// Documentation for the enclosing item.
    InnerDoc,
}

/// The numeral system of a numeric literal.
#[derive(Debug, Clone, Copy, PartialEq, Eq, Structural)]
pub enum Base {
    Binary,
    Octal,
    Decimal,
    Hexadecimal,
}

impl Base {
    /// The radix as a number.
    pub open spec fn spec_radix(self) -> u32 {
        match self {
            Base::Binary => 2,
            Base::Octal => 8,
            Base::Decimal => 10,
            Base::Hexadecimal => 16,
        }
    }

    /// The radix as a number: 2, 8, 10 or 16.
    #[verifier::when_used_as_spec(spec_radix)]
    pub fn radix(self) -> (r: u32)
        ensures
            r == self.spec_radix(),
    {
        match self {
            Base::Binary => 2,
            Base::Octal => 8,
            Base::Decimal => 10,
            Base::Hexadecimal => 16,
        }
    }
}

/// The class of a literal, with the flags that mark a malformed one.
#[derive(Debug, Clone, Copy, PartialEq, Eq, Structural)]
pub enum LitKind {
    /// An integer; `empty` when a base prefix is followed by no digit.
    Int { base: Base, empty: bool },
    /// A float; `exp_empty` when an exponent marker is followed by no digit.
    Float { base: Base, exp_empty: bool },
    /// A character literal; `terminated` when its closing quote was found.
    Char { terminated: bool },
    /// A string literal; `terminated` when its closing quote was found.
    Str { terminated: bool },
}

/// Single-character operators.
#[derive(Debug, Clone, Copy, PartialEq, Eq, Structural)]
pub enum Punc {
    Plus,  // +
    Minus,  // -
    Star,  // *
    Slash,  // /
    Perc,  // %
    Amp,  // &
    Bar,  // |
    Caret,  // ^
    Bang,  // !
    Eq,  // =
    Lt,  // <
    Gt,  // >
    Dot,  // .
    Comma,  // ,
    Colon,  // :
    Semi,  // ;
}

/// Bracket shapes.
#[derive(Debug, Clone, Copy, PartialEq, Eq, Structural)]
pub enum Delim {
    Paren,  // ( )
    Brack,  // [ ]
    Brace,  // { }
}

/// The class of a lexeme.
#[allow(inconsistent_fields)]
#[derive(Debug, Clone, Copy, PartialEq, Eq, Structural)]
pub enum TokenKind {
    /// One character that starts no lexeme.
    Unknown,
    Space,
    Newline,
    LineComment { kind: CommentKind },
    BlockComment { kind: CommentKind, terminated: bool },
    Ident,
    Lit { kind: LitKind },
    Punc(Punc),
    Open(Delim),
    Close(Delim),
}

/// A lexeme: its class and the number of characters it spans.
#[derive(Debug, Clone, Copy, PartialEq, Eq, Structural)]
pub struct Token {
    pub len: usize,
    pub kind: TokenKind,
}

impl Token {
    pub fn new(kind: TokenKind, len: usize) -> (token: Token)
        ensures
            token == (Token { len, kind }),
    {
        Token { len, kind }
    }
}

} // verus!
