//! A stateless, resumable agent runtime built around an append-only session ledger.

pub mod api;
pub mod application;
pub mod domain;
pub mod json;
pub mod support;
pub mod text;

pub use api::agent::{AgentCore, ProviderProfile};
pub use api::builder::{AgentBuilder, HasProvider, NoProvider};
pub use domain::config::{AgentConfig, EnvironmentContext, ResolvedSessionConfig, SessionConfig, SessionPinnedConfig};
pub use domain::content::{ContentBlock, Message, MessageRole};
pub use domain::error::{AgentError, AgentErrorCode};
pub use domain::event::{AgentEvent, AgentEventEnvelope};
pub use domain::hook::{BeforeToolUsePatch, HookKind, HookOutcome, TurnStartPatch};
pub use domain::ledger::{LedgerEvent, MessageStatus, SessionEventPayload, SessionLedger};
pub use domain::memory::Memory;
pub use domain::model::{ChatEvent, ChatRequest, FinishReason, ModelInfo, ProviderCapability, ProviderError};
pub use domain::plugin::PluginDescriptor;
pub use domain::session::{SessionListQuery, SessionPage, SessionSearchQuery, SessionSummary};
pub use domain::skill::SkillDefinition;
pub use domain::tool::{ToolDescriptor, ToolInput, ToolOutput};
pub use domain::turn::{RequestContext, TurnOutcome};
