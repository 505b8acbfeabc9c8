//! What the library exchanges with model providers.

use vstd::prelude::*;
use serde_json::Value;
use crate::domain::content::ContentBlock;
use crate::domain::tool::ToolDescriptor;

verus! {

/// A capability that a model may offer.
#[derive(Debug, Clone, Copy, PartialEq, Eq, PartialOrd, Ord, Hash, Structural)]
pub enum ProviderCapability {
    ToolUse,
    Vision,
    Streaming,
}

/// A model that a provider serves. `capabilities` holds each capability the model offers.
#[derive(Debug, Clone, PartialEq, Eq)]
pub struct ModelInfo {
    pub model_id: String,
    pub display_name: String,
    pub context_window: usize,
    pub capabilities: Vec<ProviderCapability>,
}

/// Whether `caps` holds `c`.
pub open spec fn has_capability(caps: Seq<ProviderCapability>, c: ProviderCapability) -> bool {
    caps.contains(c)
}

/// Whether the model offers `c`.
pub fn model_has_capability(info: &ModelInfo, c: ProviderCapability) -> (r: bool)
    ensures
        r == has_capability(info.capabilities@, c),
{
    let mut i: usize = 0;
    while i < info.capabilities.len()
        invariant
            i <= info.capabilities.len(),
            forall|j: int| 0 <= j < i ==> info.capabilities@[j] != c,
        decreases info.capabilities.len() - i,
    {
        if info.capabilities[i] == c {
            assert(info.capabilities@[i as int] == c);
            return true;
        }
        i += 1;
    }
    proof {
        if info.capabilities@.contains(c) {
            let j = choose|j: int| 0 <= j < info.capabilities@.len() && info.capabilities@[j] == c;
            assert(info.capabilities@[j] != c);
        }
    }
    false
}

/// The role of a message on the wire.
#[derive(Debug, Clone, Copy, PartialEq, Eq, Structural)]
pub enum ModelMessageRole {
    System,
    User,
    Assistant,
    Tool,
}

/// A message as sent to a provider.
#[derive(Debug, PartialEq, Eq)]
pub struct ModelMessage {
    pub role: ModelMessageRole,
    pub content: Vec<ContentBlock>,
    pub tool_call_id: Option<String>,
}

/// Token usage reported by a provider.
#[derive(Debug, Clone, Copy, PartialEq, Eq, Structural)]
pub struct Usage {
    pub input_tokens: u64,
    pub output_tokens: u64,
    pub reasoning_tokens: Option<u64>,
    pub total_tokens: u64,
}

/// Why a provider stopped streaming.
#[derive(Debug, Clone, Copy, PartialEq, Eq, Structural)]
pub enum FinishReason {
    Stop,
    ToolCalls,
    Length,
    Cancelled,
    Error,
}

/// A request to a provider. The sampling temperature is not part of it: the library never
/// sets one.
#[derive(Debug, PartialEq)]
pub struct ChatRequest {
    pub model_id: String,
    pub system_prompt: String,
    pub messages: Vec<ModelMessage>,
    pub tools: Vec<ToolDescriptor>,
    pub max_tokens: Option<u32>,
    pub reasoning_effort: Option<String>,
}

/// The kind of a provider failure.
#[derive(Debug, Clone, Copy, PartialEq, Eq, Structural)]
pub enum ProviderErrorKind {
    ContextLengthExceeded,
    UnsupportedCapability { capability: ProviderCapability },
    Transport,
    Provider,
}

/// A failure reported by a provider.
#[derive(Debug, PartialEq, Eq)]
pub struct ProviderError {
    pub kind: ProviderErrorKind,
    pub message: String,
    pub retryable: bool,
}

/// One event of a provider's response stream.
#[derive(Debug, PartialEq)]
pub enum ChatEvent {
    TextDelta { text: String },
    ReasoningDelta { text: String },
    ToolCall { call_id: String, tool_name: String, arguments: Value },
    Done { finish_reason: FinishReason, usage: Usage },
    Error(ProviderError),
}

} // verus!
