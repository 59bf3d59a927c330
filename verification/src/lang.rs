//! The command language: words, command trees and their execution.

pub mod ast;
pub mod contexts;
pub mod errors;
pub mod exec;
pub mod laws;
pub mod meaning;
pub mod parser;
pub mod pipes;
pub mod protocol;
pub mod run;
pub mod syntax;
pub mod word;
