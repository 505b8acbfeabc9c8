//! Events that a running turn streams to its caller.

use vstd::prelude::*;
use serde_json::Value;
use crate::domain::tool::ToolOutput;
use crate::domain::turn::TurnOutcome;

verus! {

/// Something that happened during a turn.
#[derive(Debug, PartialEq)]
pub enum AgentEvent {
    TurnStarted { turn_id: String },
    TextDelta { text: String },
    ReasoningDelta { text: String },
    ToolCallStart { call_id: String, tool_name: String, arguments: Value },
    ToolCallEnd { call_id: String, tool_name: String, output: ToolOutput },
    TurnFinished { outcome: TurnOutcome },
}

/// An event and its position in the turn's event stream, counted from one.
#[derive(Debug, PartialEq)]
pub struct AgentEventEnvelope {
    pub sequence: u64,
    pub event: AgentEvent,
}

} // verus!
