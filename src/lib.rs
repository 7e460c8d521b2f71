//! A lexical scanner for a small scripting language, with an expression tree
//! and its parenthesized printer.

pub mod expr;
pub mod grammar;
pub mod number;
pub mod properties;
pub mod scanner;
pub mod token;
