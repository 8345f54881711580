//! Tokens produced by the HULK lexer and consumed by the parser.
use vstd::prelude::*;

use crate::ast::NumberLit;

verus! {

/// Source position of a token: 1-based line and column.
#[derive(Debug, Clone, Copy, PartialEq, Eq)]
pub struct Span {
    pub line: usize,
    pub col: usize,
}

/// Every distinct kind of token the HULK lexer can produce.
#[derive(Debug, PartialEq)]
pub enum TokenKind {
    Number(NumberLit),
    StringLit(String),
    True,
    False,
    Plus,
    Minus,
    Star,
    Slash,
    Caret,
    Percent,
    At,
    AtAt,
    EqEq,
    Neq,
    Lt,
    Gt,
    Leq,
    Geq,
    And,
    Or,
    Not,
    Assign,
    ColonEq,
    LParen,
    RParen,
    LBrace,
    RBrace,
    LBracket,
    RBracket,
    Semicolon,
    Comma,
    Colon,
    Dot,
    Arrow,
    FatArrow,
    Pipe,
    Let,
    In,
    If,
    Elif,
    Else,
    While,
    For,
    Function,
    Type,
    Inherits,
    New,
    SelfKw,
    Base,
    Is,
    As,
    Protocol,
    Extends,
    Def,
    Match,
    Case,
    Underscore,
    Ident(String),
    Eof,
}

/// A token with its source position.
#[derive(Debug, PartialEq)]
pub struct Token {
    pub kind: TokenKind,
    pub span: Span,
}

/// Number that identifies the variant of a token kind, payload ignored.
#[verifier::opaque]
pub open spec fn kind_tag(k: TokenKind) -> nat {
    match k {
        TokenKind::Number(..) => 0,
        TokenKind::StringLit(..) => 1,
        TokenKind::True => 2,
        TokenKind::False => 3,
        TokenKind::Plus => 4,
        TokenKind::Minus => 5,
        TokenKind::Star => 6,
        TokenKind::Slash => 7,
        TokenKind::Caret => 8,
        TokenKind::Percent => 9,
        TokenKind::At => 10,
        TokenKind::AtAt => 11,
        TokenKind::EqEq => 12,
        TokenKind::Neq => 13,
        TokenKind::Lt => 14,
        TokenKind::Gt => 15,
        TokenKind::Leq => 16,
        TokenKind::Geq => 17,
        TokenKind::And => 18,
        TokenKind::Or => 19,
        TokenKind::Not => 20,
        TokenKind::Assign => 21,
        TokenKind::ColonEq => 22,
        TokenKind::LParen => 23,
        TokenKind::RParen => 24,
        TokenKind::LBrace => 25,
        TokenKind::RBrace => 26,
        TokenKind::LBracket => 27,
        TokenKind::RBracket => 28,
        TokenKind::Semicolon => 29,
        TokenKind::Comma => 30,
        TokenKind::Colon => 31,
        TokenKind::Dot => 32,
        TokenKind::Arrow => 33,
        TokenKind::FatArrow => 34,
        TokenKind::Pipe => 35,
        TokenKind::Let => 36,
        TokenKind::In => 37,
        TokenKind::If => 38,
        TokenKind::Elif => 39,
        TokenKind::Else => 40,
        TokenKind::While => 41,
        TokenKind::For => 42,
        TokenKind::Function => 43,
        TokenKind::Type => 44,
        TokenKind::Inherits => 45,
        TokenKind::New => 46,
        TokenKind::SelfKw => 47,
        TokenKind::Base => 48,
        TokenKind::Is => 49,
        TokenKind::As => 50,
        TokenKind::Protocol => 51,
        TokenKind::Extends => 52,
        TokenKind::Def => 53,
        TokenKind::Match => 54,
        TokenKind::Case => 55,
        TokenKind::Underscore => 56,
        TokenKind::Ident(..) => 57,
        TokenKind::Eof => 58,
    }
}

/// Only the end-of-file marker has the tag of the end-of-file marker.
pub broadcast proof fn lemma_kind_tag_eof(k: TokenKind)
    ensures
        #[trigger] kind_tag(k) == 58 <==> k is Eof,
{
    reveal(kind_tag);
}

impl TokenKind {
    /// The variant number of this kind.
    pub fn tag(&self) -> (r: u8)
        ensures
            r as nat == kind_tag(*self),
    {
        proof {
            reveal(kind_tag);
        }
        match self {
            TokenKind::Number(..) => 0,
            TokenKind::StringLit(..) => 1,
            TokenKind::True => 2,
            TokenKind::False => 3,
            TokenKind::Plus => 4,
            TokenKind::Minus => 5,
            TokenKind::Star => 6,
            TokenKind::Slash => 7,
            TokenKind::Caret => 8,
            TokenKind::Percent => 9,
            TokenKind::At => 10,
            TokenKind::AtAt => 11,
            TokenKind::EqEq => 12,
            TokenKind::Neq => 13,
            TokenKind::Lt => 14,
            TokenKind::Gt => 15,
            TokenKind::Leq => 16,
            TokenKind::Geq => 17,
            TokenKind::And => 18,
            TokenKind::Or => 19,
            TokenKind::Not => 20,
            TokenKind::Assign => 21,
            TokenKind::ColonEq => 22,
            TokenKind::LParen => 23,
            TokenKind::RParen => 24,
            TokenKind::LBrace => 25,
            TokenKind::RBrace => 26,
            TokenKind::LBracket => 27,
            TokenKind::RBracket => 28,
            TokenKind::Semicolon => 29,
            TokenKind::Comma => 30,
            TokenKind::Colon => 31,
            TokenKind::Dot => 32,
            TokenKind::Arrow => 33,
            TokenKind::FatArrow => 34,
            TokenKind::Pipe => 35,
            TokenKind::Let => 36,
            TokenKind::In => 37,
            TokenKind::If => 38,
            TokenKind::Elif => 39,
            TokenKind::Else => 40,
            TokenKind::While => 41,
            TokenKind::For => 42,
            TokenKind::Function => 43,
            TokenKind::Type => 44,
            TokenKind::Inherits => 45,
            TokenKind::New => 46,
            TokenKind::SelfKw => 47,
            TokenKind::Base => 48,
            TokenKind::Is => 49,
            TokenKind::As => 50,
            TokenKind::Protocol => 51,
            TokenKind::Extends => 52,
            TokenKind::Def => 53,
            TokenKind::Match => 54,
            TokenKind::Case => 55,
            TokenKind::Underscore => 56,
            TokenKind::Ident(..) => 57,
            TokenKind::Eof => 58,
        }
    }

    /// Is this the end-of-file marker?
    pub fn is_eof(&self) -> (r: bool)
        ensures
            r == (*self is Eof),
    {
        match self {
            TokenKind::Eof => true,
            _ => false,
        }
    }

    /// A copy of this kind, payload included.
    pub fn duplicate(&self) -> (r: TokenKind)
        ensures
            r == *self,
    {
        match self {
            TokenKind::Number(n) => TokenKind::Number(NumberLit { bits: n.bits, text: n.text.clone() }),
            TokenKind::StringLit(s) => TokenKind::StringLit(s.clone()),
            TokenKind::True => TokenKind::True,
            TokenKind::False => TokenKind::False,
            TokenKind::Plus => TokenKind::Plus,
            TokenKind::Minus => TokenKind::Minus,
            TokenKind::Star => TokenKind::Star,
            TokenKind::Slash => TokenKind::Slash,
            TokenKind::Caret => TokenKind::Caret,
            TokenKind::Percent => TokenKind::Percent,
            TokenKind::At => TokenKind::At,
            TokenKind::AtAt => TokenKind::AtAt,
            TokenKind::EqEq => TokenKind::EqEq,
            TokenKind::Neq => TokenKind::Neq,
            TokenKind::Lt => TokenKind::Lt,
            TokenKind::Gt => TokenKind::Gt,
            TokenKind::Leq => TokenKind::Leq,
            TokenKind::Geq => TokenKind::Geq,
            TokenKind::And => TokenKind::And,
            TokenKind::Or => TokenKind::Or,
            TokenKind::Not => TokenKind::Not,
            TokenKind::Assign => TokenKind::Assign,
            TokenKind::ColonEq => TokenKind::ColonEq,
            TokenKind::LParen => TokenKind::LParen,
            TokenKind::RParen => TokenKind::RParen,
            TokenKind::LBrace => TokenKind::LBrace,
            TokenKind::RBrace => TokenKind::RBrace,
            TokenKind::LBracket => TokenKind::LBracket,
            TokenKind::RBracket => TokenKind::RBracket,
            TokenKind::Semicolon => TokenKind::Semicolon,
            TokenKind::Comma => TokenKind::Comma,
            TokenKind::Colon => TokenKind::Colon,
            TokenKind::Dot => TokenKind::Dot,
            TokenKind::Arrow => TokenKind::Arrow,
            TokenKind::FatArrow => TokenKind::FatArrow,
            TokenKind::Pipe => TokenKind::Pipe,
            TokenKind::Let => TokenKind::Let,
            TokenKind::In => TokenKind::In,
            TokenKind::If => TokenKind::If,
            TokenKind::Elif => TokenKind::Elif,
            TokenKind::Else => TokenKind::Else,
            TokenKind::While => TokenKind::While,
            TokenKind::For => TokenKind::For,
            TokenKind::Function => TokenKind::Function,
            TokenKind::Type => TokenKind::Type,
            TokenKind::Inherits => TokenKind::Inherits,
            TokenKind::New => TokenKind::New,
            TokenKind::SelfKw => TokenKind::SelfKw,
            TokenKind::Base => TokenKind::Base,
            TokenKind::Is => TokenKind::Is,
            TokenKind::As => TokenKind::As,
            TokenKind::Protocol => TokenKind::Protocol,
            TokenKind::Extends => TokenKind::Extends,
            TokenKind::Def => TokenKind::Def,
            TokenKind::Match => TokenKind::Match,
            TokenKind::Case => TokenKind::Case,
            TokenKind::Underscore => TokenKind::Underscore,
            TokenKind::Ident(s) => TokenKind::Ident(s.clone()),
            TokenKind::Eof => TokenKind::Eof,
        }
    }
}

impl Token {
    /// A copy of this token.
    pub fn duplicate(&self) -> (r: Token)
        ensures
            r == *self,
    {
        Token { kind: self.kind.duplicate(), span: self.span }
    }
}

} // verus!
