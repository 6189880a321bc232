//! The language front end: tokens, scanner and parser.

pub mod parser;
pub mod scanner;
pub mod tokens;
