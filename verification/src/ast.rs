//! The shapes that parsing produces.

pub mod ast;
