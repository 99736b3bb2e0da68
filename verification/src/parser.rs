//! The statement parser: its grammar and its implementation.

pub mod grammar;
pub mod laws;
pub mod parser;
