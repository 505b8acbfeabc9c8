//! Plugin hooks: where they fire, what they are given and what they may answer.

use vstd::prelude::*;
use serde_json::Value;
use crate::domain::content::ContentBlock;
use crate::domain::tool::ToolOutput;

verus! {

/// A point in the agent's life at which plugins are called.
#[derive(Debug, Clone, Copy, PartialEq, Eq, Hash, Structural)]
pub enum HookKind {
    SessionStart,
    SessionEnd,
    TurnStart,
    TurnEnd,
    BeforeToolUse,
    AfterToolUse,
    BeforeCompact,
}

/// Prompt sections that a turn-start hook appends.
#[derive(Debug, Clone, PartialEq, Eq, Default)]
pub struct TurnStartPatch {
    pub append_dynamic_sections: Vec<String>,
}

/// Replacement arguments from a before-tool-use hook.
#[derive(Debug, PartialEq)]
pub struct BeforeToolUsePatch {
    pub arguments: Value,
}

/// A hook's answer: go on, go on with a patch, or stop with a reason.
#[derive(Debug, PartialEq)]
pub enum HookOutcome<P> {
    Continue,
    ContinueWith(P),
    Abort { reason: String },
}

/// Given to session-start hooks.
#[derive(Debug, PartialEq)]
pub struct SessionStartPayload {
    pub session_id: String,
    pub model_id: String,
    pub plugin_config: Value,
}

/// Given to session-end hooks.
#[derive(Debug, PartialEq)]
pub struct SessionEndPayload {
    pub session_id: String,
    pub message_count: u64,
    pub plugin_config: Value,
}

/// Given to turn-start hooks; `dynamic_sections` holds what earlier plugins appended.
#[derive(Debug, PartialEq)]
pub struct TurnStartPayload {
    pub session_id: String,
    pub turn_id: String,
    pub user_input: Vec<ContentBlock>,
    pub dynamic_sections: Vec<String>,
    pub plugin_config: Value,
}

/// Given to turn-end hooks.
#[derive(Debug, PartialEq)]
pub struct TurnEndPayload {
    pub session_id: String,
    pub turn_id: String,
    pub assistant_output: String,
    pub tool_calls_count: usize,
    pub cancelled: bool,
    pub plugin_config: Value,
}

/// Given to before-tool-use hooks; `arguments` are the arguments as patched so far.
#[derive(Debug, PartialEq)]
pub struct BeforeToolUsePayload {
    pub session_id: String,
    pub turn_id: String,
    pub tool_name: String,
    pub arguments: Value,
    pub plugin_config: Value,
}

/// Given to after-tool-use hooks.
#[derive(Debug, PartialEq)]
pub struct AfterToolUsePayload {
    pub session_id: String,
    pub turn_id: String,
    pub tool_name: String,
    pub output: ToolOutput,
    pub duration_ms: u128,
    pub success: bool,
    pub plugin_config: Value,
}

impl AfterToolUsePayload {
    /// The payload for the after-tool-use hooks of a call of `tool_name` that gave
    /// `output`: the call succeeded exactly when the output is not an error.
    pub fn new(
        session_id: &str,
        turn_id: &str,
        tool_name: &str,
        output: &ToolOutput,
        duration_ms: u128,
        plugin_config: Value,
    ) -> (p: Self)
        ensures
            p.session_id@ == session_id@,
            p.turn_id@ == turn_id@,
            p.tool_name@ == tool_name@,
            p.output == *output,
            p.duration_ms == duration_ms,
            p.success == !output.is_error,
            p.plugin_config == plugin_config,
    {
        AfterToolUsePayload {
            session_id: session_id.to_owned(),
            turn_id: turn_id.to_owned(),
            tool_name: tool_name.to_owned(),
            output: output.clone(),
            duration_ms,
            success: !output.is_error,
            plugin_config,
        }
    }
}

} // verus!
