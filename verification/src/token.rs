//! Tokens, their kinds, and the diagnostics a scan can report.
//!
//! A token's payload is carried directly by its kind: only identifiers, string
//! literals and number literals hold one. A number literal's payload is the
//! exact matched numeric text; its floating value is for the consumer to parse,
//! since the scanner itself never computes with it.

use vstd::prelude::*;

verus! {

/// The closed set of token kinds the scanner can produce.
#[derive(Debug, Clone, PartialEq, Eq)]
pub enum TokenType {
    // Single-character tokens.
    LeftParen,
    RightParen,
    LeftBrace,
    RightBrace,
    Comma,
    Dot,
    Minus,
    Plus,
    Semicolon,
    Slash,
    Star,
    // One or two character tokens.
    Bang,
    BangEqual,
    Equal,
    EqualEqual,
    Greater,
    GreaterEqual,
    Less,
    LessEqual,
    // Literals.
    Identifier(Vec<u8>),
    String(Vec<u8>),
    Number(Vec<u8>),
    // Keywords.
    And,
    Class,
    Else,
    False,
    Fun,
    For,
    If,
    Nil,
    Or,
    Print,
    Return,
    Super,
    This,
    True,
    Var,
    While,
    // End-of-input sentinel, always the final token of a scan.
    Eof,
}

/// Mathematical form of a token kind: payloads are byte sequences.
pub enum TokenTypeView {
    LeftParen,
    RightParen,
    LeftBrace,
    RightBrace,
    Comma,
    Dot,
    Minus,
    Plus,
    Semicolon,
    Slash,
    Star,
    Bang,
    BangEqual,
    Equal,
    EqualEqual,
    Greater,
    GreaterEqual,
    Less,
    LessEqual,
    Identifier(Seq<u8>),
    String(Seq<u8>),
    Number(Seq<u8>),
    And,
    Class,
    Else,
    False,
    Fun,
    For,
    If,
    Nil,
    Or,
    Print,
    Return,
    Super,
    This,
    True,
    Var,
    While,
    Eof,
}

impl View for TokenType {
    type V = TokenTypeView;

    open spec fn view(&self) -> TokenTypeView {
        match self {
            TokenType::LeftParen => TokenTypeView::LeftParen,
            TokenType::RightParen => TokenTypeView::RightParen,
            TokenType::LeftBrace => TokenTypeView::LeftBrace,
            TokenType::RightBrace => TokenTypeView::RightBrace,
            TokenType::Comma => TokenTypeView::Comma,
            TokenType::Dot => TokenTypeView::Dot,
            TokenType::Minus => TokenTypeView::Minus,
            TokenType::Plus => TokenTypeView::Plus,
            TokenType::Semicolon => TokenTypeView::Semicolon,
            TokenType::Slash => TokenTypeView::Slash,
            TokenType::Star => TokenTypeView::Star,
            TokenType::Bang => TokenTypeView::Bang,
            TokenType::BangEqual => TokenTypeView::BangEqual,
            TokenType::Equal => TokenTypeView::Equal,
            TokenType::EqualEqual => TokenTypeView::EqualEqual,
            TokenType::Greater => TokenTypeView::Greater,
            TokenType::GreaterEqual => TokenTypeView::GreaterEqual,
            TokenType::Less => TokenTypeView::Less,
            TokenType::LessEqual => TokenTypeView::LessEqual,
            TokenType::Identifier(text) => TokenTypeView::Identifier(text@),
            TokenType::String(text) => TokenTypeView::String(text@),
            TokenType::Number(text) => TokenTypeView::Number(text@),
            TokenType::And => TokenTypeView::And,
            TokenType::Class => TokenTypeView::Class,
            TokenType::Else => TokenTypeView::Else,
            TokenType::False => TokenTypeView::False,
            TokenType::Fun => TokenTypeView::Fun,
            TokenType::For => TokenTypeView::For,
            TokenType::If => TokenTypeView::If,
            TokenType::Nil => TokenTypeView::Nil,
            TokenType::Or => TokenTypeView::Or,
            TokenType::Print => TokenTypeView::Print,
            TokenType::Return => TokenTypeView::Return,
            TokenType::Super => TokenTypeView::Super,
            TokenType::This => TokenTypeView::This,
            TokenType::True => TokenTypeView::True,
            TokenType::Var => TokenTypeView::Var,
            TokenType::While => TokenTypeView::While,
            TokenType::Eof => TokenTypeView::Eof,
        }
    }
}

/// A scanned token: its kind, the exact source text it covers (absent only for
/// the end-of-input sentinel), and the 1-based line its first character occurs on.
#[derive(Debug, Clone, PartialEq, Eq)]
pub struct Token {
    pub kind: TokenType,
    pub lexeme: Option<Vec<u8>>,
    pub line: usize,
}

/// Mathematical form of a token.
#[verifier::ext_equal]
pub struct TokenView {
    pub kind: TokenTypeView,
    pub lexeme: Option<Seq<u8>>,
    pub line: int,
}

impl View for Token {
    type V = TokenView;

    open spec fn view(&self) -> TokenView {
        TokenView {
            kind: self.kind@,
            lexeme: match self.lexeme {
                Some(l) => Some(l@),
                None => None,
            },
            line: self.line as int,
        }
    }
}

/// The two recoverable lexical faults.
#[derive(Debug, Clone, Copy, PartialEq, Eq, Structural)]
pub enum ErrorKind {
    UnexpectedCharacter,
    UnterminatedString,
}

/// A reported lexical fault and the 1-based line it was found on.
#[derive(Debug, Clone, Copy, PartialEq, Eq, Structural)]
pub struct ScanError {
    pub kind: ErrorKind,
    pub line: usize,
}

/// Mathematical form of a reported fault.
#[verifier::ext_equal]
pub struct ErrorView {
    pub kind: ErrorKind,
    pub line: int,
}

impl View for ScanError {
    type V = ErrorView;

    open spec fn view(&self) -> ErrorView {
        ErrorView { kind: self.kind, line: self.line as int }
    }
}

} // verus!
