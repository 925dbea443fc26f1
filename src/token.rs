//! Tokens of the source language.
use vstd::prelude::*;

verus! {

#[derive(Debug, PartialEq)]
pub struct Token {
    pub kind: TokenKind,
}

impl Token {
    pub fn new(kind: TokenKind) -> (r: Token)
        ensures
            r.kind == kind,
    {
        Token { kind }
    }

    pub fn kind(&self) -> (r: &TokenKind)
        ensures
            *r == self.kind,
    {
        &self.kind
    }
}

impl Default for Token {
    fn default() -> (r: Token)
        ensures
            r.kind is Eof,
    {
        Token { kind: TokenKind::Eof }
    }
}

#[derive(Debug, PartialEq)]
pub enum TokenKind {
    // single character
    Plus,
    Minus,
    Star,
    Slash,
    Comma,
    Dot,
    Semi,
    OpenParen,
    CloseParen,
    OpenBrace,
    CloseBrace,
    // one or two characters
    Bang,
    BangEq,
    Eq,
    EqEq,
    Gt,
    GtE,
    Lt,
    LtE,
    Ident { name: String },
    // literals
    Str { value: String },
    Int { value: i32 },
    /// A number with a fraction, as written (`123.4`); the host turns it
    /// into a [`TokenKind::Float`] before parsing.
    Decimal { lexeme: String },
    /// A binary64 number, by its bit pattern.
    Float { value: u64 },
    True,
    False,
    Nil,
    // keywords
    Let,
    If,
    Else,
    For,
    While,
    And,
    Or,
    Fun,
    Return,
    // other
    Error,
    Eof,
}

} // verus!
