//! Arithmetic expressions: what stands between `$((` and `))`.

pub mod errors;
pub mod eval;
pub mod laws;
pub mod lexer;
pub mod meaning;
pub mod parser;
pub mod reading;
pub mod types;
pub mod writing;
