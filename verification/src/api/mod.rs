//! The agent as its users assemble it.

pub mod agent;
pub mod builder;
