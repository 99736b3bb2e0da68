//! Lexical and syntactic front end of a small scripting language.
//!
//! Source text is turned into classified tokens by [`lexer::lexer::Lexer`], and a
//! token stream into a flat list of statements by [`parser::parser::Parser`].
//! Every executable function carries a contract over the mathematical model in
//! [`lexer::scan`] and [`parser::grammar`].

pub mod ast;
pub mod error;
pub mod lexer;
pub mod parser;
pub mod repl;
pub mod token;
