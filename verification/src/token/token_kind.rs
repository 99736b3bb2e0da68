//! The closed set of lexical categories.

use vstd::prelude::*;

verus! {

/// Lexical category of a token. `Ident` and `Int` carry their decoded payload.
#[derive(Debug, Clone, PartialEq)]
#[allow(dead_code)]
pub enum TokenKind {
    Illegal,
    Eof,
    // Delimiters
    Newline,
    LParen,
    RParen,
    LBrace,
    RBrace,
    LAngle,
    RAngle,
    LBracket,
    RBracket,
    Comma,
    Colon,
    SemiColon,
    // Operators
    Equals,
    EqualsEquals,
    Infer,
    Bang,
    BangEquals,
    Plus,
    Minus,
    Slash,
    Asterisk,
    QMark,
    // Literals
    Ident(String),
    String,
    Int(i64),
    // Keywords
    Function,
    Var,
    Void,
    Return,
    True,
    False,
    If,
    Else,
}

/// Mathematical model of a [`TokenKind`]: an identifier is its text, an
/// integer its value.
pub ghost enum Kind {
    Illegal,
    Eof,
    Newline,
    LParen,
    RParen,
    LBrace,
    RBrace,
    LAngle,
    RAngle,
    LBracket,
    RBracket,
    Comma,
    Colon,
    SemiColon,
    Equals,
    EqualsEquals,
    Infer,
    Bang,
    BangEquals,
    Plus,
    Minus,
    Slash,
    Asterisk,
    QMark,
    Ident(Seq<char>),
    String,
    Int(int),
    Function,
    Var,
    Void,
    Return,
    True,
    False,
    If,
    Else,
}

impl View for TokenKind {
    type V = Kind;

    open spec fn view(&self) -> Kind {
        match self {
            TokenKind::Illegal => Kind::Illegal,
            TokenKind::Eof => Kind::Eof,
            TokenKind::Newline => Kind::Newline,
            TokenKind::LParen => Kind::LParen,
            TokenKind::RParen => Kind::RParen,
            TokenKind::LBrace => Kind::LBrace,
            TokenKind::RBrace => Kind::RBrace,
            TokenKind::LAngle => Kind::LAngle,
            TokenKind::RAngle => Kind::RAngle,
            TokenKind::LBracket => Kind::LBracket,
            TokenKind::RBracket => Kind::RBracket,
            TokenKind::Comma => Kind::Comma,
            TokenKind::Colon => Kind::Colon,
            TokenKind::SemiColon => Kind::SemiColon,
            TokenKind::Equals => Kind::Equals,
            TokenKind::EqualsEquals => Kind::EqualsEquals,
            TokenKind::Infer => Kind::Infer,
            TokenKind::Bang => Kind::Bang,
            TokenKind::BangEquals => Kind::BangEquals,
            TokenKind::Plus => Kind::Plus,
            TokenKind::Minus => Kind::Minus,
            TokenKind::Slash => Kind::Slash,
            TokenKind::Asterisk => Kind::Asterisk,
            TokenKind::QMark => Kind::QMark,
            TokenKind::Ident(name) => Kind::Ident(name@),
            TokenKind::String => Kind::String,
            TokenKind::Int(value) => Kind::Int(*value as int),
            TokenKind::Function => Kind::Function,
            TokenKind::Var => Kind::Var,
            TokenKind::Void => Kind::Void,
            TokenKind::Return => Kind::Return,
            TokenKind::True => Kind::True,
            TokenKind::False => Kind::False,
            TokenKind::If => Kind::If,
            TokenKind::Else => Kind::Else,
        }
    }
}

impl Kind {
    /// The name under which a category appears in diagnostics: the name of
    /// the variant, without payload.
    pub open spec fn label(self) -> Seq<char> {
        match self {
            Kind::Illegal => "Illegal"@,
            Kind::Eof => "Eof"@,
            Kind::Newline => "Newline"@,
            Kind::LParen => "LParen"@,
            Kind::RParen => "RParen"@,
            Kind::LBrace => "LBrace"@,
            Kind::RBrace => "RBrace"@,
            Kind::LAngle => "LAngle"@,
            Kind::RAngle => "RAngle"@,
            Kind::LBracket => "LBracket"@,
            Kind::RBracket => "RBracket"@,
            Kind::Comma => "Comma"@,
            Kind::Colon => "Colon"@,
            Kind::SemiColon => "SemiColon"@,
            Kind::Equals => "Equals"@,
            Kind::EqualsEquals => "EqualsEquals"@,
            Kind::Infer => "Infer"@,
            Kind::Bang => "Bang"@,
            Kind::BangEquals => "BangEquals"@,
            Kind::Plus => "Plus"@,
            Kind::Minus => "Minus"@,
            Kind::Slash => "Slash"@,
            Kind::Asterisk => "Asterisk"@,
            Kind::QMark => "QMark"@,
            Kind::Ident(_) => "Ident"@,
            Kind::String => "String"@,
            Kind::Int(_) => "Int"@,
            Kind::Function => "Function"@,
            Kind::Var => "Var"@,
            Kind::Void => "Void"@,
            Kind::Return => "Return"@,
            Kind::True => "True"@,
            Kind::False => "False"@,
            Kind::If => "If"@,
            Kind::Else => "Else"@,
        }
    }
}

impl TokenKind {
    /// The name of the category as diagnostics print it.
    pub fn name(&self) -> (text: &'static str)
        ensures
            text@ == self@.label(),
    {
        match self {
            TokenKind::Illegal => "Illegal",
            TokenKind::Eof => "Eof",
            TokenKind::Newline => "Newline",
            TokenKind::LParen => "LParen",
            TokenKind::RParen => "RParen",
            TokenKind::LBrace => "LBrace",
            TokenKind::RBrace => "RBrace",
            TokenKind::LAngle => "LAngle",
            TokenKind::RAngle => "RAngle",
            TokenKind::LBracket => "LBracket",
            TokenKind::RBracket => "RBracket",
            TokenKind::Comma => "Comma",
            TokenKind::Colon => "Colon",
            TokenKind::SemiColon => "SemiColon",
            TokenKind::Equals => "Equals",
            TokenKind::EqualsEquals => "EqualsEquals",
            TokenKind::Infer => "Infer",
            TokenKind::Bang => "Bang",
            TokenKind::BangEquals => "BangEquals",
            TokenKind::Plus => "Plus",
            TokenKind::Minus => "Minus",
            TokenKind::Slash => "Slash",
            TokenKind::Asterisk => "Asterisk",
            TokenKind::QMark => "QMark",
            TokenKind::Ident(_) => "Ident",
            TokenKind::String => "String",
            TokenKind::Int(_) => "Int",
            TokenKind::Function => "Function",
            TokenKind::Var => "Var",
            TokenKind::Void => "Void",
            TokenKind::Return => "Return",
            TokenKind::True => "True",
            TokenKind::False => "False",
            TokenKind::If => "If",
            TokenKind::Else => "Else",
        }
    }
}

} // verus!
