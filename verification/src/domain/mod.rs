//! The pure domain model: value types and the rules that act on them alone.

pub mod config;
pub mod content;
pub mod error;
pub mod event;
pub mod hook;
pub mod ledger;
pub mod memory;
pub mod model;
pub mod plugin;
pub mod session;
pub mod skill;
pub mod tool;
pub mod turn;
