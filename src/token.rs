use vstd::prelude::*;

verus! {

/// A 1-based source position: the line and column of a token's first character.
#[derive(Debug, Clone, Copy, PartialEq, Eq, Structural)]
pub struct Span {
    pub line: usize,
    pub column: usize,
}

impl Span {
    pub fn new(line: usize, column: usize) -> (r: Span)
        ensures
            r.line == line,
            r.column == column,
    {
        Span { line, column }
    }
}

/// A token with the position of its first character.
#[derive(Debug, Clone, PartialEq)]
pub struct SpannedToken {
    pub token: Token,
    pub span: Span,
}

#[derive(Debug, Clone, PartialEq)]
pub enum Token {
    Number(i32),
    Identifier(String),
    // keywords
    Let,
    Const,
    If,
    Else,
    While,
    Function,
    Return,
    // delimiters
    LParen,
    RParen,
    LBrace,
    RBrace,
    Comma,
    Semi,
    // operators
    Plus,
    Minus,
    Star,
    Slash,
    Percent,
    Eq,
    EqEq,
    Bang,
    BangEq,
    Lt,
    LtEq,
    Gt,
    GtEq,
    EOF,
}

impl Token {
    /// The variant of a token, its payload ignored.
    pub open spec fn kind(self) -> nat {
        match self {
            Token::Number(_) => 0,
            Token::Identifier(_) => 1,
            Token::Let => 2,
            Token::Const => 3,
            Token::If => 4,
            Token::Else => 5,
            Token::While => 6,
            Token::Function => 7,
            Token::Return => 8,
            Token::LParen => 9,
            Token::RParen => 10,
            Token::LBrace => 11,
            Token::RBrace => 12,
            Token::Comma => 13,
            Token::Semi => 14,
            Token::Plus => 15,
            Token::Minus => 16,
            Token::Star => 17,
            Token::Slash => 18,
            Token::Percent => 19,
            Token::Eq => 20,
            Token::EqEq => 21,
            Token::Bang => 22,
            Token::BangEq => 23,
            Token::Lt => 24,
            Token::LtEq => 25,
            Token::Gt => 26,
            Token::GtEq => 27,
            Token::EOF => 28,
        }
    }

    pub fn kind_of(&self) -> (k: u8)
        ensures
            k as nat == self.kind(),
    {
        match self {
            Token::Number(_) => 0,
            Token::Identifier(_) => 1,
            Token::Let => 2,
            Token::Const => 3,
            Token::If => 4,
            Token::Else => 5,
            Token::While => 6,
            Token::Function => 7,
            Token::Return => 8,
            Token::LParen => 9,
            Token::RParen => 10,
            Token::LBrace => 11,
            Token::RBrace => 12,
            Token::Comma => 13,
            Token::Semi => 14,
            Token::Plus => 15,
            Token::Minus => 16,
            Token::Star => 17,
            Token::Slash => 18,
            Token::Percent => 19,
            Token::Eq => 20,
            Token::EqEq => 21,
            Token::Bang => 22,
            Token::BangEq => 23,
            Token::Lt => 24,
            Token::LtEq => 25,
            Token::Gt => 26,
            Token::GtEq => 27,
            Token::EOF => 28,
        }
    }

    /// A copy of the token.
    pub fn duplicate(&self) -> (r: Token)
        ensures
            r == *self,
    {
        match self {
            Token::Number(n) => Token::Number(*n),
            Token::Identifier(s) => Token::Identifier(s.clone()),
            Token::Let => Token::Let,
            Token::Const => Token::Const,
            Token::If => Token::If,
            Token::Else => Token::Else,
            Token::While => Token::While,
            Token::Function => Token::Function,
            Token::Return => Token::Return,
            Token::LParen => Token::LParen,
            Token::RParen => Token::RParen,
            Token::LBrace => Token::LBrace,
            Token::RBrace => Token::RBrace,
            Token::Comma => Token::Comma,
            Token::Semi => Token::Semi,
            Token::Plus => Token::Plus,
            Token::Minus => Token::Minus,
            Token::Star => Token::Star,
            Token::Slash => Token::Slash,
            Token::Percent => Token::Percent,
            Token::Eq => Token::Eq,
            Token::EqEq => Token::EqEq,
            Token::Bang => Token::Bang,
            Token::BangEq => Token::BangEq,
            Token::Lt => Token::Lt,
            Token::LtEq => Token::LtEq,
            Token::Gt => Token::Gt,
            Token::GtEq => Token::GtEq,
            Token::EOF => Token::EOF,
        }
    }
}

} // verus!
