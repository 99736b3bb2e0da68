//! The token model: lexical categories and the token value.

pub mod token;
pub mod token_kind;
