//! Execution core of a POSIX-style command shell: the variable and function
//! stores, the arithmetic expression language, word expansion, child-process
//! plans and the job manager's bookkeeping.

pub mod env;
pub mod expr;
pub mod jobs;
pub mod lang;
pub mod shell;
pub mod term;
pub mod text;
