//! Agent and session configuration, and how a session's configuration is resolved.

use vstd::prelude::*;
use crate::domain::error::AgentError;
use crate::domain::error::AgentErrorCode;
use crate::text::{clone_opt_string, concat3, join, join_strings, trim, trim_str};

verus! {

/// Facts about the environment that the system prompt reports.
#[derive(Debug, Clone, PartialEq, Eq, Default)]
pub struct EnvironmentContext {
    pub cwd: Option<String>,
    pub shell: Option<String>,
    pub current_date: Option<String>,
    pub timezone: Option<String>,
}

/// The line `  <tag>value</tag>` for a present value, nothing for an absent one.
pub open spec fn xml_line(open_tag: Seq<char>, close_tag: Seq<char>, v: Option<String>) -> Seq<Seq<char>> {
    match v {
        Some(x) => seq![open_tag + x@ + close_tag],
        None => Seq::empty(),
    }
}

/// The lines of the `<environment_context>` block.
pub open spec fn environment_lines(e: EnvironmentContext) -> Seq<Seq<char>> {
    seq!["<environment_context>"@]
        + xml_line("  <cwd>"@, "</cwd>"@, e.cwd)
        + xml_line("  <shell>"@, "</shell>"@, e.shell)
        + xml_line("  <current_date>"@, "</current_date>"@, e.current_date)
        + xml_line("  <timezone>"@, "</timezone>"@, e.timezone)
        + seq!["</environment_context>"@]
}

/// The `<environment_context>` block: its lines joined by line feeds.
pub open spec fn environment_xml(e: EnvironmentContext) -> Seq<char> {
    join(environment_lines(e), "\n"@)
}

fn push_xml_line(lines: &mut Vec<String>, open_tag: &str, close_tag: &str, v: &Option<String>)
    ensures
        final(lines).deep_view() == old(lines).deep_view() + xml_line(open_tag@, close_tag@, *v),
{
    let ghost before = lines.deep_view();
    match v {
        Some(x) => {
            lines.push(concat3(open_tag, x.as_str(), close_tag));
            assert(lines.deep_view() =~= before + xml_line(open_tag@, close_tag@, *v));
        },
        None => {
            assert(lines.deep_view() =~= before + xml_line(open_tag@, close_tag@, *v));
        },
    }
}

impl EnvironmentContext {
    /// The environment as an XML block, one line per present field.
    pub fn serialize_to_xml(&self) -> (r: String)
        ensures
            r@ == environment_xml(*self),
    {
        let mut lines: Vec<String> = Vec::new();
        lines.push("<environment_context>".to_owned());
        assert(lines.deep_view() =~= seq!["<environment_context>"@]);
        push_xml_line(&mut lines, "  <cwd>", "</cwd>", &self.cwd);
        push_xml_line(&mut lines, "  <shell>", "</shell>", &self.shell);
        push_xml_line(&mut lines, "  <current_date>", "</current_date>", &self.current_date);
        push_xml_line(&mut lines, "  <timezone>", "</timezone>", &self.timezone);
        let ghost before = lines.deep_view();
        lines.push("</environment_context>".to_owned());
        assert(lines.deep_view() =~= before + seq!["</environment_context>"@]);
        join_strings(&lines, "\n")
    }
}

/// Agent-wide configuration. The compaction threshold, a floating-point ratio, is kept
/// and checked by the application layer.
#[derive(Debug, Clone, PartialEq, Eq)]
pub struct AgentConfig {
    pub default_model: String,
    pub system_instructions: Vec<String>,
    pub personality: Option<String>,
    pub environment_context: Option<EnvironmentContext>,
    pub tool_timeout_ms: u64,
    pub compact_model: Option<String>,
    pub compact_prompt: Option<String>,
    pub max_tool_calls_per_turn: usize,
    pub memory_model: Option<String>,
    pub memory_checkpoint_interval: u32,
    pub memory_max_items: usize,
    pub memory_namespace: String,
}

impl Default for AgentConfig {
    fn default() -> (r: Self)
        ensures
            r.default_model@ == Seq::<char>::empty(),
            r.system_instructions@.len() == 0,
            r.personality is None,
            r.environment_context is None,
            r.tool_timeout_ms == 120_000,
            r.compact_model is None,
            r.compact_prompt is None,
            r.max_tool_calls_per_turn == 50,
            r.memory_model is None,
            r.memory_checkpoint_interval == 10,
            r.memory_max_items == 20,
            r.memory_namespace@ == "default"@,
    {
        AgentConfig {
            default_model: String::new(),
            system_instructions: Vec::new(),
            personality: None,
            environment_context: None,
            tool_timeout_ms: 120_000,
            compact_model: None,
            compact_prompt: None,
            max_tool_calls_per_turn: 50,
            memory_model: None,
            memory_checkpoint_interval: 10,
            memory_max_items: 20,
            memory_namespace: "default".to_owned(),
        }
    }
}

/// What a caller may choose when opening a session.
#[derive(Debug, Clone, PartialEq, Eq, Default)]
pub struct SessionConfig {
    pub model_id: Option<String>,
    pub system_prompt_override: Option<String>,
}

/// The configuration a session keeps for its whole life, recorded in its ledger.
#[derive(Debug, PartialEq, Eq)]
pub struct SessionPinnedConfig {
    pub model_id: String,
    pub system_prompt_override: Option<String>,
    pub memory_namespace: String,
}

impl Clone for SessionPinnedConfig {
    fn clone(&self) -> (r: Self)
        ensures
            r == *self,
    {
        SessionPinnedConfig {
            model_id: self.model_id.clone(),
            system_prompt_override: clone_opt_string(&self.system_prompt_override),
            memory_namespace: self.memory_namespace.clone(),
        }
    }
}

/// The limits and helper models a session runs with, derived from the agent configuration.
#[derive(Debug, PartialEq, Eq)]
pub struct SessionRuntimePolicy {
    pub tool_timeout_ms: u64,
    pub compact_model_id: String,
    pub compact_prompt: String,
    pub max_tool_calls_per_turn: usize,
    pub memory_model_id: String,
    pub memory_checkpoint_interval: u32,
    pub memory_max_items: usize,
}

impl Clone for SessionRuntimePolicy {
    fn clone(&self) -> (r: Self)
        ensures
            r == *self,
    {
        SessionRuntimePolicy {
            tool_timeout_ms: self.tool_timeout_ms,
            compact_model_id: self.compact_model_id.clone(),
            compact_prompt: self.compact_prompt.clone(),
            max_tool_calls_per_turn: self.max_tool_calls_per_turn,
            memory_model_id: self.memory_model_id.clone(),
            memory_checkpoint_interval: self.memory_checkpoint_interval,
            memory_max_items: self.memory_max_items,
        }
    }
}

/// Pinned configuration and runtime policy together.
#[derive(Debug, PartialEq, Eq)]
pub struct ResolvedSessionConfig {
    pub pinned: SessionPinnedConfig,
    pub runtime_policy: SessionRuntimePolicy,
}

impl Clone for ResolvedSessionConfig {
    fn clone(&self) -> (r: Self)
        ensures
            r == *self,
    {
        ResolvedSessionConfig { pinned: self.pinned.clone(), runtime_policy: self.runtime_policy.clone() }
    }
}

/// The prompt used for compaction when the configuration gives none.
pub const DEFAULT_COMPACT_PROMPT: &'static str = "Summarize the older conversation faithfully and preserve unresolved constraints, tool results, and open questions.";

/// The trimmed text, or nothing when it is absent or blank.
pub open spec fn normalized_text(v: Option<String>) -> Option<Seq<char>> {
    match v {
        Some(raw) => if trim(raw@).len() == 0 {
            None
        } else {
            Some(trim(raw@))
        },
        None => None,
    }
}

/// Whether an optional string has the view that `normalized_text` gives.
pub open spec fn opt_view_is(r: Option<String>, v: Option<Seq<char>>) -> bool {
    match (r, v) {
        (Some(s), Some(t)) => s@ == t,
        (None, None) => true,
        _ => false,
    }
}

/// Trims optional text and drops it when nothing is left.
pub fn normalize_optional_text(value: Option<String>) -> (r: Option<String>)
    ensures
        opt_view_is(r, normalized_text(value)),
{
    match value {
        Some(raw) => {
            let trimmed = trim_str(raw.as_str());
            if trimmed.as_str().is_empty() {
                None
            } else {
                Some(trimmed)
            }
        },
        None => None,
    }
}

/// Resolves the pinned configuration of a new session.
///
/// The model is the one the session asks for, else the agent's default; the memory
/// namespace is the agent's, trimmed, and must not be blank.
pub fn resolve_session_pinned_config(agent_config: &AgentConfig, session_config: SessionConfig) -> (r: Result<SessionPinnedConfig, AgentError>)
    ensures
        match r {
            Ok(p) => {
                &&& trim(agent_config.memory_namespace@).len() > 0
                &&& p.model_id@ == match session_config.model_id {
                    Some(m) => m@,
                    None => agent_config.default_model@,
                }
                &&& opt_view_is(p.system_prompt_override, normalized_text(session_config.system_prompt_override))
                &&& p.memory_namespace@ == trim(agent_config.memory_namespace@)
            },
            Err(e) => {
                &&& trim(agent_config.memory_namespace@).len() == 0
                &&& e.code == AgentErrorCode::InvalidConfig
                &&& e.message@ == "memory_namespace must not be blank"@
                &&& !e.retryable
            },
        },
{
    let model_id = match session_config.model_id {
        Some(m) => m,
        None => agent_config.default_model.clone(),
    };
    let memory_namespace = trim_str(agent_config.memory_namespace.as_str());
    if memory_namespace.as_str().is_empty() {
        return Err(AgentError::new(
            AgentErrorCode::InvalidConfig,
            "memory_namespace must not be blank".to_owned(),
        ));
    }
    Ok(SessionPinnedConfig {
        model_id,
        system_prompt_override: normalize_optional_text(session_config.system_prompt_override),
        memory_namespace,
    })
}

/// The runtime policy that the agent configuration gives a session pinned to `pinned`.
pub open spec fn runtime_policy_holds(p: SessionRuntimePolicy, agent_config: AgentConfig, pinned: SessionPinnedConfig) -> bool {
    &&& p.tool_timeout_ms == agent_config.tool_timeout_ms
    &&& p.compact_model_id@ == match agent_config.compact_model {
        Some(m) => m@,
        None => pinned.model_id@,
    }
    &&& p.compact_prompt@ == match normalized_text(agent_config.compact_prompt) {
        Some(t) => t,
        None => DEFAULT_COMPACT_PROMPT@,
    }
    &&& p.max_tool_calls_per_turn == agent_config.max_tool_calls_per_turn
    &&& p.memory_model_id@ == match agent_config.memory_model {
        Some(m) => m@,
        None => pinned.model_id@,
    }
    &&& p.memory_checkpoint_interval == agent_config.memory_checkpoint_interval
    &&& p.memory_max_items == agent_config.memory_max_items
}

/// Derives a session's runtime policy from the agent configuration.
pub fn resolve_session_runtime_policy(agent_config: &AgentConfig, pinned: &SessionPinnedConfig) -> (r: SessionRuntimePolicy)
    ensures
        runtime_policy_holds(r, *agent_config, *pinned),
{
    let compact_model_id = match &agent_config.compact_model {
        Some(m) => m.clone(),
        None => pinned.model_id.clone(),
    };
    let compact_prompt = match normalize_optional_text(clone_opt_string(&agent_config.compact_prompt)) {
        Some(t) => t,
        None => DEFAULT_COMPACT_PROMPT.to_owned(),
    };
    let memory_model_id = match &agent_config.memory_model {
        Some(m) => m.clone(),
        None => pinned.model_id.clone(),
    };
    SessionRuntimePolicy {
        tool_timeout_ms: agent_config.tool_timeout_ms,
        compact_model_id,
        compact_prompt,
        max_tool_calls_per_turn: agent_config.max_tool_calls_per_turn,
        memory_model_id,
        memory_checkpoint_interval: agent_config.memory_checkpoint_interval,
        memory_max_items: agent_config.memory_max_items,
    }
}

} // verus!
