//! Use cases built on the domain model.

pub mod context_manager;
pub mod memory_manager;
pub mod plugin_manager;
pub mod prompt_builder;
pub mod request_builder;
pub mod session_service;
pub mod session_setup;
pub mod skill_resolver;
pub mod tool_dispatcher;
pub mod turn_engine;
