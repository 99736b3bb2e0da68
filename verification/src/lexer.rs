//! The tokenizer: its character classes, its model and its implementation.

pub mod chars;
pub mod number;
pub mod scan;
pub mod stream;
pub mod laws;
pub mod lexer;
