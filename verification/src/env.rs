//! What a shell remembers between commands: its variables and functions,
//! and the names of the signals that it can trap.

pub mod functions;
pub mod names;
pub mod traps;
pub mod variables;
