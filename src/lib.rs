//! A tokenizer for a small C-like expression and statement language.

pub mod grammar;
pub mod laws;
pub mod scan;
pub mod text;
pub mod token;

pub use token::{Keyword, Operator, Token, Type, TypeView};
pub use scan::lex;
