//! Child processes: how one is described before it is started.

pub mod spawn;
