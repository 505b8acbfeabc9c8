//! The bookkeeping behind storages that keep everything in the process.

pub mod in_memory;
pub mod ranking;
