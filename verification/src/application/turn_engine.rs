//! The agent's turn: from the user's message through the tool loop to the final answer.
//!
//! A turn is a state machine. Each step takes the result of the previous action and
//! returns the events to stream to the caller (already numbered) and the next action;
//! the application layer performs the actions (ledger appends, plugin hooks, memory
//! search, provider calls, tool dispatch) and feeds their results back.

use vstd::prelude::*;
use crate::application::context_manager::{is_first_with_source, ContextManager};
use crate::application::memory_manager::{first_by_id, memories_view, merge_count};
use crate::application::prompt_builder::rendered_system_prompt;
use crate::application::request_builder::{any_uses_vision, ordered_messages, unsupported_message, wire_message};
use crate::domain::content::{system_text_view, MessageView};
use crate::domain::session::VisibleMessageView;
use crate::domain::turn::ResolvedSkillInjection;
use crate::application::memory_manager::MemoryManager;
use crate::application::prompt_builder::PromptBuilder;
use crate::application::request_builder::{ChatRequestBuilder, RequestBuildOptions};
use crate::application::skill_resolver::{block_names, dedup, first_missing, injection_for, SkillResolver};
use crate::application::tool_dispatcher::{ToolDispatchResult, ToolExecutionRecord};
use crate::domain::config::{AgentConfig, ResolvedSessionConfig};
use crate::domain::content::{blocks_view, clone_blocks, BlockView, ContentBlock};
use crate::domain::error::{from_provider, AgentError, AgentErrorCode};
use crate::domain::event::{AgentEvent, AgentEventEnvelope};
use crate::domain::ledger::{MessageStatus, PayloadView, SessionEventPayload};
use crate::domain::memory::{Memory, SessionMemoryState};
use crate::domain::model::{has_capability, ChatEvent, ChatRequest, FinishReason, ModelInfo, ProviderCapability, ProviderError};
use crate::domain::plugin::PluginDescriptor;
use crate::domain::session::ContextState;
use crate::domain::skill::SkillDefinition;
use crate::domain::tool::{RequestedToolBatch, RequestedToolCall, ToolDescriptor};
use crate::domain::turn::{TurnAugmentation, TurnOutcome};
use crate::json::clone_json;
use crate::text::{concat2, decimal, is_blank, trim, u64_decimal};

verus! {

/// Runs turns.
pub struct TurnEngine;

/// Whether a block is an image with a blank MIME type or blank data.
pub open spec fn bad_image(b: BlockView) -> bool {
    b matches BlockView::Image { mime_type, data_base64 } && (trim(mime_type).len() == 0 || trim(data_base64).len() == 0)
}

/// What a turn needs from the agent and the session to build its requests.
pub struct TurnEnvironment {
    pub agent_config: AgentConfig,
    pub resolved_config: ResolvedSessionConfig,
    pub skills: Vec<SkillDefinition>,
    pub plugins: Vec<PluginDescriptor>,
    pub tools: Vec<ToolDescriptor>,
    pub model_info: ModelInfo,
}

/// Where a turn is.
#[derive(Debug, Clone, Copy, PartialEq, Eq, Structural)]
pub enum TurnPhase {
    AwaitUserAppend,
    AwaitSkillRecord,
    AwaitTurnStartHooks,
    AwaitMemories,
    AwaitMemoryStore,
    AwaitRequestInputs,
    AwaitChatOpen,
    Streaming,
    AwaitAssistantAppend,
    AwaitTurnEnd { cancelled: bool },
    AwaitDispatch,
    AwaitCallAppend { index: usize },
    AwaitResultAppend { index: usize },
    Done,
}

/// What the turn needs done next.
#[derive(Debug)]
pub enum TurnAction {
    /// Append this payload to the session's ledger; hand back the new event's seq.
    AppendEvent(SessionEventPayload),
    /// Record in the ledger that the turn invokes these skills (the result is not used).
    RecordSkillInvocations(Vec<String>),
    /// Run the turn-start hooks of the plugins; hand back the dynamic sections.
    RunTurnStartHooks,
    /// Search the memories with this query; no store means no memories.
    SearchMemories { query: String, limit: usize },
    /// Keep these as the memories of the latest turn.
    SetTurnMemories(Vec<Memory>),
    /// Hand over the session's projected context and memories.
    FetchRequestInputs,
    /// Send this request to the session's provider.
    Chat(ChatRequest),
    /// Hand over the next item of the provider's stream.
    NextChatItem,
    /// Run the turn-end hooks of the plugins (their result is not used).
    RunTurnEndHooks { assistant_output: String, tool_calls_count: usize, cancelled: bool },
    /// Dispatch this batch of tool calls.
    Dispatch(RequestedToolBatch),
    /// The turn is over.
    Finish(TurnOutcome),
}

/// The events to stream, numbered, and the next action.
#[derive(Debug)]
pub struct TurnStep {
    pub emits: Vec<AgentEventEnvelope>,
    pub action: TurnAction,
}

/// A turn in progress.
#[derive(Debug)]
pub struct TurnMachine {
    pub phase: TurnPhase,
    pub turn_id: String,
    pub content: Vec<ContentBlock>,
    /// The number of the next event to stream.
    pub next_sequence: u64,
    pub augmentation: TurnAugmentation,
    pub dynamic_sections: Vec<String>,
    pub allow_tools: bool,
    pub total_tool_calls: usize,
    pub assistant_output: String,
    pub text_buffer: String,
    pub requested: Vec<RequestedToolCall>,
    pub finish_reason: FinishReason,
    pub records: Vec<ToolExecutionRecord>,
    pub dispatch_aborted: Option<String>,
}

/// Whether the envelopes number `events` consecutively from `first`.
pub open spec fn numbered(emits: Seq<AgentEventEnvelope>, first: u64, events: Seq<AgentEvent>) -> bool {
    &&& emits.len() == events.len()
    &&& forall|i: int| 0 <= i < emits.len() ==> (#[trigger] emits[i]).sequence == first + i && emits[i].event == events[i]
}

/// The id of the turn with index `index`.
pub open spec fn turn_id_of(index: u64) -> Seq<char> {
    "turn-"@ + decimal(index as nat)
}

/// Whether the step ends the turn with `outcome` and nothing streamed.
pub open spec fn fails_with(step: TurnStep, e: AgentError) -> bool {
    &&& step.emits@.len() == 0
    &&& step.action == TurnAction::Finish(TurnOutcome::Failed(e))
}

/// Whether `e` is the error with `code` and `message`, not retryable.
pub open spec fn error_is(e: AgentError, code: AgentErrorCode, message: Seq<char>) -> bool {
    e.code == code && e.message@ == message && !e.retryable
}

impl TurnEngine {
    /// Checks a turn's input: it must hold a block, and each image needs a MIME type and
    /// data that are not blank.
    pub fn validate_input(content: &[ContentBlock]) -> (r: Result<(), AgentError>)
        ensures
            content@.len() == 0 ==> (r matches Err(e) && error_is(
                e,
                AgentErrorCode::InvalidInput,
                "turn input must contain at least one content block"@,
            )),
            content@.len() > 0 && (exists|i: int| 0 <= i < content@.len() && bad_image(#[trigger] content@[i]@)) ==> (
            r matches Err(e) && error_is(e, AgentErrorCode::InvalidInput, "image blocks require mime_type and data_base64"@)),
            content@.len() > 0 && (forall|i: int| 0 <= i < content@.len() ==> !bad_image(#[trigger] content@[i]@))
                ==> r is Ok,
    {
        if content.len() == 0 {
            return Err(AgentError::new(
                AgentErrorCode::InvalidInput,
                "turn input must contain at least one content block".to_owned(),
            ));
        }
        let mut i: usize = 0;
        while i < content.len()
            invariant
                i <= content.len(),
                forall|j: int| 0 <= j < i ==> !bad_image(#[trigger] content@[j]@),
            decreases content.len() - i,
        {
            if let ContentBlock::Image { mime_type, data_base64 } = &content[i] {
                if is_blank(mime_type.as_str()) || is_blank(data_base64.as_str()) {
                    assert(bad_image(content@[i as int]@));
                    return Err(AgentError::new(
                        AgentErrorCode::InvalidInput,
                        "image blocks require mime_type and data_base64".to_owned(),
                    ));
                }
            }
            i += 1;
        }
        Ok(())
    }

    /// Starts the turn with index `turn_index` on `content`: streams `TurnStarted` and
    /// asks to append the user's message to the ledger.
    pub fn start(turn_index: u64, content: Vec<ContentBlock>) -> (r: (TurnMachine, TurnStep))
        ensures
            r.0.phase == TurnPhase::AwaitUserAppend,
            r.0.turn_id@ == turn_id_of(turn_index),
            r.0.content@ == content@,
            r.0.allow_tools,
            r.0.total_tool_calls == 0,
            r.0.augmentation.skill_injections@.len() == 0,
            r.0.dynamic_sections@.len() == 0,
            r.0.assistant_output@.len() == 0,
            r.0.next_sequence == 2,
            numbered(r.1.emits@, 1, seq![AgentEvent::TurnStarted { turn_id: r.0.turn_id }]),
            r.1.action matches TurnAction::AppendEvent(p) && p@ == (PayloadView::UserMessage { content: blocks_view(content@) }),
    {
        let turn_id = concat2("turn-", u64_decimal(turn_index).as_str());
        let payload = SessionEventPayload::UserMessage { content: clone_blocks(&content) };
        let mut emits: Vec<AgentEventEnvelope> = Vec::new();
        emits.push(AgentEventEnvelope { sequence: 1, event: AgentEvent::TurnStarted { turn_id: turn_id.clone() } });
        let m = TurnMachine {
            phase: TurnPhase::AwaitUserAppend,
            turn_id,
            content,
            next_sequence: 2,
            augmentation: TurnAugmentation { origin_user_seq: 0, skill_injections: Vec::new() },
            dynamic_sections: Vec::new(),
            allow_tools: true,
            total_tool_calls: 0,
            assistant_output: String::new(),
            text_buffer: String::new(),
            requested: Vec::new(),
            finish_reason: FinishReason::Error,
            records: Vec::new(),
            dispatch_aborted: None,
        };
        assert(numbered(emits@, 1, seq![AgentEvent::TurnStarted { turn_id: m.turn_id }]));
        (m, TurnStep { emits, action: TurnAction::AppendEvent(payload) })
    }
}

/// The outcome a turn ends with after its turn-end hooks.
pub open spec fn end_outcome(cancelled: bool) -> TurnOutcome {
    if cancelled {
        TurnOutcome::Cancelled
    } else {
        TurnOutcome::Completed
    }
}

/// Whether the next request of the turn may offer tools, once `total` calls were made.
pub open spec fn tools_still_allowed(allowed: bool, total: usize, max: usize) -> bool {
    allowed && total < max
}

impl TurnMachine {
    /// Whether the event counter can number the events of one more step.
    pub open spec fn room(self) -> bool {
        self.next_sequence < u64::MAX - 2
    }

    /// The fields that only the tool loop changes.
    pub open spec fn same_loop_state(self, other: TurnMachine) -> bool {
        &&& self.turn_id == other.turn_id
        &&& self.content == other.content
        &&& self.augmentation == other.augmentation
        &&& self.dynamic_sections == other.dynamic_sections
        &&& self.allow_tools == other.allow_tools
        &&& self.total_tool_calls == other.total_tool_calls
        &&& self.assistant_output == other.assistant_output
    }

    /// The loop state of `other` kept but for the augmentation.
    pub open spec fn same_loop_state_but_augmentation(self, other: TurnMachine) -> bool {
        &&& self.turn_id == other.turn_id
        &&& self.content == other.content
        &&& self.dynamic_sections == other.dynamic_sections
        &&& self.allow_tools == other.allow_tools
        &&& self.total_tool_calls == other.total_tool_calls
        &&& self.assistant_output == other.assistant_output
    }

    /// The loop state of `other` kept but for the dynamic sections.
    pub open spec fn same_loop_state_but_sections(self, other: TurnMachine) -> bool {
        &&& self.turn_id == other.turn_id
        &&& self.content == other.content
        &&& self.augmentation == other.augmentation
        &&& self.allow_tools == other.allow_tools
        &&& self.total_tool_calls == other.total_tool_calls
        &&& self.assistant_output == other.assistant_output
    }

    fn emit(&mut self, emits: &mut Vec<AgentEventEnvelope>, event: AgentEvent)
        requires
            old(self).next_sequence < u64::MAX,
        ensures
            final(self).next_sequence == old(self).next_sequence + 1,
            final(emits)@ == old(emits)@.push(AgentEventEnvelope { sequence: old(self).next_sequence, event }),
            final(self).phase == old(self).phase,
            final(self).same_loop_state(*old(self)),
            final(self).text_buffer == old(self).text_buffer,
            final(self).requested == old(self).requested,
            final(self).finish_reason == old(self).finish_reason,
            final(self).records == old(self).records,
            final(self).dispatch_aborted == old(self).dispatch_aborted,
    {
        emits.push(AgentEventEnvelope { sequence: self.next_sequence, event });
        self.next_sequence = self.next_sequence + 1;
    }

    fn fail(&mut self, e: AgentError) -> (step: TurnStep)
        ensures
            final(self).phase == TurnPhase::Done,
            final(self).next_sequence == old(self).next_sequence,
            final(self).same_loop_state(*old(self)),
            final(self).text_buffer == old(self).text_buffer,
            final(self).requested == old(self).requested,
            final(self).finish_reason == old(self).finish_reason,
            final(self).records == old(self).records,
            final(self).dispatch_aborted == old(self).dispatch_aborted,
            fails_with(step, e),
    {
        self.phase = TurnPhase::Done;
        TurnStep { emits: Vec::new(), action: TurnAction::Finish(TurnOutcome::Failed(e)) }
    }

    /// The user's message was appended (or not). On success the `/skill` commands of the
    /// input are resolved against `env.skills`, anchored at the new event's seq; the
    /// invoked skills are recorded when there are any, and the turn-start hooks run
    /// next. A failed append or an unknown skill ends the turn.
    pub fn on_user_appended(&mut self, result: Result<u64, AgentError>, env: &TurnEnvironment) -> (step: TurnStep)
        requires
            old(self).phase == TurnPhase::AwaitUserAppend,
        ensures
            final(self).same_loop_state_but_augmentation(*old(self)),
            result is Err ==> final(self).same_loop_state(*old(self)),
            final(self).next_sequence == old(self).next_sequence,
            match result {
                Err(e) => final(self).phase == TurnPhase::Done && fails_with(step, e),
                Ok(seq) => {
                    let d = dedup(block_names(blocks_view(old(self).content@)));
                    &&& step.emits@.len() == 0
                    &&& (exists|i: int| first_missing(env.skills@, d, i)) ==> {
                        &&& final(self).phase == TurnPhase::Done
                        &&& step.action matches TurnAction::Finish(TurnOutcome::Failed(e))
                        &&& exists|i: int| #[trigger] first_missing(env.skills@, d, i) && error_is(
                            e,
                            AgentErrorCode::SkillNotFound,
                            "skill `"@ + d[i] + "` is not registered"@,
                        )
                    }
                    &&& (forall|i: int| !first_missing(env.skills@, d, i)) ==> {
                        &&& final(self).augmentation.origin_user_seq == seq
                        &&& final(self).augmentation.skill_injections@.len() == d.len()
                        &&& forall|i: int| 0 <= i < d.len() ==> injection_for(
                            #[trigger] final(self).augmentation.skill_injections@[i],
                            env.skills@,
                            d[i],
                        )
                        &&& d.len() > 0 ==> {
                            &&& final(self).phase == TurnPhase::AwaitSkillRecord
                            &&& (step.action matches TurnAction::RecordSkillInvocations(names) && names.deep_view() == d)
                        }
                        &&& d.len() == 0 ==> final(self).phase == TurnPhase::AwaitTurnStartHooks && step.action is RunTurnStartHooks
                    }
                },
            },
    {
        match result {
            Err(e) => self.fail(e),
            Ok(seq) => match SkillResolver::resolve(self.content.as_slice(), &env.skills, seq) {
                Err(e) => self.fail(e),
                Ok(resolved) => {
                    self.augmentation = resolved.augmentation;
                    if resolved.invoked_skill_names.len() > 0 {
                        self.phase = TurnPhase::AwaitSkillRecord;
                        TurnStep { emits: Vec::new(), action: TurnAction::RecordSkillInvocations(resolved.invoked_skill_names) }
                    } else {
                        self.phase = TurnPhase::AwaitTurnStartHooks;
                        TurnStep { emits: Vec::new(), action: TurnAction::RunTurnStartHooks }
                    }
                },
            },
        }
    }

    /// The invoked skills were recorded; the turn-start hooks run next.
    pub fn on_skills_recorded(&mut self) -> (step: TurnStep)
        requires
            old(self).phase == TurnPhase::AwaitSkillRecord,
        ensures
            final(self).same_loop_state(*old(self)),
            final(self).phase == TurnPhase::AwaitTurnStartHooks,
            final(self).next_sequence == old(self).next_sequence,
            step.emits@.len() == 0,
            step.action is RunTurnStartHooks,
    {
        self.phase = TurnPhase::AwaitTurnStartHooks;
        TurnStep { emits: Vec::new(), action: TurnAction::RunTurnStartHooks }
    }

    /// The turn-start hooks ran. Their dynamic sections are kept, and the memories of the
    /// turn are searched with the text the user typed; with no such text there is
    /// nothing to search and the turn has no memories. A hook failure ends the turn.
    pub fn on_turn_start_hooks(&mut self, result: Result<Vec<String>, AgentError>, env: &TurnEnvironment) -> (step: TurnStep)
        requires
            old(self).phase == TurnPhase::AwaitTurnStartHooks,
        ensures
            final(self).same_loop_state_but_sections(*old(self)),
            result is Err ==> final(self).same_loop_state(*old(self)),
            final(self).next_sequence == old(self).next_sequence,
            step.emits@.len() == 0,
            match result {
                Err(e) => final(self).phase == TurnPhase::Done && fails_with(step, e),
                Ok(sections) => {
                    &&& final(self).dynamic_sections == sections
                    &&& ({
                        let query = crate::application::memory_manager::memory_query(blocks_view(old(self).content@));
                        if query.len() == 0 {
                            &&& final(self).phase == TurnPhase::AwaitMemoryStore
                            &&& step.action matches TurnAction::SetTurnMemories(ms) && ms@.len() == 0
                        } else {
                            &&& final(self).phase == TurnPhase::AwaitMemories
                            &&& step.action matches TurnAction::SearchMemories { query: q, limit }
                                && q@ == query && limit == env.resolved_config.runtime_policy.memory_max_items
                        }
                    })
                },
            },
    {
        match result {
            Err(e) => self.fail(e),
            Ok(sections) => {
                self.dynamic_sections = sections;
                let query = MemoryManager::turn_memory_query(self.content.as_slice());
                if query.as_str().is_empty() {
                    self.phase = TurnPhase::AwaitMemoryStore;
                    TurnStep { emits: Vec::new(), action: TurnAction::SetTurnMemories(Vec::new()) }
                } else {
                    self.phase = TurnPhase::AwaitMemories;
                    TurnStep {
                        emits: Vec::new(),
                        action: TurnAction::SearchMemories {
                            query,
                            limit: env.resolved_config.runtime_policy.memory_max_items,
                        },
                    }
                }
            },
        }
    }

    /// The memory search ended; its memories become the turn's. A failure ends the turn.
    pub fn on_memories(&mut self, result: Result<Vec<Memory>, AgentError>) -> (step: TurnStep)
        requires
            old(self).phase == TurnPhase::AwaitMemories,
        ensures
            final(self).same_loop_state(*old(self)),
            final(self).next_sequence == old(self).next_sequence,
            match result {
                Err(e) => final(self).phase == TurnPhase::Done && fails_with(step, e),
                Ok(ms) => {
                    &&& final(self).phase == TurnPhase::AwaitMemoryStore
                    &&& step.emits@.len() == 0
                    &&& step.action == TurnAction::SetTurnMemories(ms)
                },
            },
    {
        match result {
            Err(e) => self.fail(e),
            Ok(ms) => {
                self.phase = TurnPhase::AwaitMemoryStore;
                TurnStep { emits: Vec::new(), action: TurnAction::SetTurnMemories(ms) }
            },
        }
    }

    /// The turn's memories are kept; the first request is built next.
    pub fn on_memories_stored(&mut self) -> (step: TurnStep)
        requires
            old(self).phase == TurnPhase::AwaitMemoryStore,
        ensures
            final(self).same_loop_state(*old(self)),
            final(self).phase == TurnPhase::AwaitRequestInputs,
            final(self).next_sequence == old(self).next_sequence,
            step.emits@.len() == 0,
            step.action is FetchRequestInputs,
    {
        self.phase = TurnPhase::AwaitRequestInputs;
        TurnStep { emits: Vec::new(), action: TurnAction::FetchRequestInputs }
    }
}

/// The messages a request sends for the projected context `visible`, with the turn's
/// user message at `k` and the skill injections right after it.
pub open spec fn request_messages(visible: Seq<VisibleMessageView>, k: int, aug: TurnAugmentation) -> Seq<MessageView> {
    visible.take(k).map_values(|v: VisibleMessageView| v.message) + seq![visible[k].message]
        + aug.skill_injections@.map_values(|s: ResolvedSkillInjection| system_text_view(s.rendered_xml@))
        + visible.skip(k + 1).map_values(|v: VisibleMessageView| v.message)
}

impl TurnMachine {
    /// The session's context and memories for the next request. The request holds the
    /// projected context split around the turn's user message with the skill injections
    /// after it, a system prompt rendered from the agent's configuration, the skills,
    /// plugins, the merged memories and the dynamic sections, and the tools while they are
    /// allowed. The turn fails when its user message is no longer visible or the model
    /// cannot take the request.
    pub fn on_request_inputs(&mut self, context: ContextState, memory: SessionMemoryState, env: &TurnEnvironment) -> (step: TurnStep)
        requires
            old(self).phase == TurnPhase::AwaitRequestInputs,
        ensures
            final(self).next_sequence == old(self).next_sequence,
            final(self).same_loop_state(*old(self)),
            step.emits@.len() == 0,
            final(self).phase == TurnPhase::Done || final(self).phase == TurnPhase::AwaitChatOpen,
            (forall|k: int| 0 <= k < context@.visible_messages.len() ==> context@.visible_messages[k].source_seq != Some(
                old(self).augmentation.origin_user_seq,
            )) ==> {
                &&& final(self).phase == TurnPhase::Done
                &&& fails_as(step, AgentErrorCode::InvalidInput, "turn anchor message is no longer visible in the projected context"@)
            },
            forall|k: int| #[trigger] is_first_with_source(context@.visible_messages, old(self).augmentation.origin_user_seq, k)
                ==> {
                let caps = env.model_info.capabilities@;
                let no_vision = any_uses_vision(request_messages(context@.visible_messages, k, old(self).augmentation))
                    && !has_capability(caps, ProviderCapability::Vision);
                let no_tools = old(self).allow_tools && env.tools@.len() > 0 && !has_capability(caps, ProviderCapability::ToolUse);
                &&& no_vision ==> final(self).phase == TurnPhase::Done && fails_as(
                    step,
                    AgentErrorCode::ModelNotSupported,
                    unsupported_message(env.model_info.model_id@, "` does not support vision input"@),
                )
                &&& !no_vision && no_tools ==> final(self).phase == TurnPhase::Done && fails_as(
                    step,
                    AgentErrorCode::ModelNotSupported,
                    unsupported_message(env.model_info.model_id@, "` does not support tool use"@),
                )
                &&& !no_vision && !no_tools ==> final(self).phase == TurnPhase::AwaitChatOpen
            },
            final(self).phase == TurnPhase::AwaitChatOpen ==> {
                &&& final(self).text_buffer@.len() == 0
                &&& final(self).requested@.len() == 0
                &&& final(self).finish_reason == FinishReason::Error
                &&& step.action matches TurnAction::Chat(req) && {
                    let all = first_by_id(memories_view(memory.bootstrap_memories@ + memory.last_turn_memories@));
                    let mems = all.take(merge_count(env.resolved_config.runtime_policy.memory_max_items, all.len()) as int);
                    &&& req@.model_id == env.model_info.model_id@
                    &&& req@.system_prompt == rendered_system_prompt(
                        env.agent_config,
                        env.resolved_config,
                        env.skills@,
                        env.plugins@,
                        mems,
                        old(self).dynamic_sections.deep_view(),
                    )
                    &&& exists|k: int| {
                        &&& is_first_with_source(context@.visible_messages, old(self).augmentation.origin_user_seq, k)
                        &&& req@.messages == request_messages(context@.visible_messages, k, old(self).augmentation).map_values(
                            |m: MessageView| wire_message(m),
                        )
                    }
                    &&& req@.tools == if old(self).allow_tools {
                        env.tools@
                    } else {
                        Seq::empty()
                    }
                    &&& req.max_tokens is None
                    &&& req.reasoning_effort is None
                }
            },
    {
        let request_context = match ContextManager::build_request_context(&context, &self.augmentation) {
            Ok(c) => c,
            Err(e) => {
                return self.fail(e);
            },
        };
        let ghost k = choose|k: int| {
            &&& is_first_with_source(context@.visible_messages, self.augmentation.origin_user_seq, k)
            &&& request_context@.pre_anchor_messages == context@.visible_messages.take(k).map_values(
                |v: VisibleMessageView| v.message,
            )
            &&& request_context@.anchor_message == context@.visible_messages[k].message
            &&& request_context@.post_anchor_messages == context@.visible_messages.skip(k + 1).map_values(
                |v: VisibleMessageView| v.message,
            )
            &&& request_context@.post_anchor_augmentations == self.augmentation.skill_injections@.map_values(
                |s: ResolvedSkillInjection| system_text_view(s.rendered_xml@),
            )
        };
        proof {
            assert(ordered_messages(request_context@) == request_messages(context@.visible_messages, k, self.augmentation));
            assert forall|k2: int| #[trigger] is_first_with_source(context@.visible_messages, self.augmentation.origin_user_seq, k2) implies k2 == k by {
                if k2 < k {
                    assert(context@.visible_messages[k2].source_seq != Some(self.augmentation.origin_user_seq));
                } else if k2 > k {
                    assert(context@.visible_messages[k].source_seq != Some(self.augmentation.origin_user_seq));
                }
            }
        }
        let memories = MemoryManager::merged_prompt_memories(&memory, env.resolved_config.runtime_policy.memory_max_items);
        let rendered = PromptBuilder::render(
            &env.agent_config,
            &env.resolved_config,
            &env.skills,
            &env.plugins,
            &memories,
            &self.dynamic_sections,
        );
        match ChatRequestBuilder::build(
            &rendered,
            &request_context,
            &env.tools,
            RequestBuildOptions { allow_tools: self.allow_tools },
            &env.model_info,
        ) {
            Err(e) => self.fail(e),
            Ok(request) => {
                self.text_buffer = String::new();
                self.requested = Vec::new();
                self.finish_reason = FinishReason::Error;
                self.phase = TurnPhase::AwaitChatOpen;
                TurnStep { emits: Vec::new(), action: TurnAction::Chat(request) }
            },
        }
    }

    /// The provider took the request (or not). Its stream is read next; a provider error
    /// ends the turn.
    pub fn on_chat_opened(&mut self, result: Result<(), ProviderError>) -> (step: TurnStep)
        requires
            old(self).phase == TurnPhase::AwaitChatOpen,
        ensures
            final(self).next_sequence == old(self).next_sequence,
            final(self).same_loop_state(*old(self)),
            final(self).text_buffer == old(self).text_buffer,
            final(self).requested == old(self).requested,
            final(self).finish_reason == old(self).finish_reason,
            match result {
                Err(pe) => final(self).phase == TurnPhase::Done && fails_with(step, from_provider(pe)),
                Ok(()) => final(self).phase == TurnPhase::Streaming && step.emits@.len() == 0 && step.action is NextChatItem,
            },
    {
        match result {
            Err(pe) => self.fail(AgentError::from(pe)),
            Ok(()) => {
                self.phase = TurnPhase::Streaming;
                TurnStep { emits: Vec::new(), action: TurnAction::NextChatItem }
            },
        }
    }
}

/// Whether the step ends the turn, with nothing streamed, on the error with `code` and
/// `message`.
pub open spec fn fails_as(step: TurnStep, code: AgentErrorCode, message: Seq<char>) -> bool {
    &&& step.emits@.len() == 0
    &&& step.action matches TurnAction::Finish(TurnOutcome::Failed(e)) && error_is(e, code, message)
}

/// The ledger payload of the text the assistant streamed; it is incomplete when the turn
/// was cancelled.
pub open spec fn assistant_payload(text: Seq<char>, reason: FinishReason) -> PayloadView {
    PayloadView::AssistantMessage {
        content: seq![BlockView::Text { text }],
        status: if reason == FinishReason::Cancelled {
            MessageStatus::Incomplete
        } else {
            MessageStatus::Complete
        },
    }
}

/// `a + b`, or `usize::MAX` where that does not fit.
pub open spec fn saturating_sum(a: usize, b: int) -> usize {
    if a + b > usize::MAX {
        usize::MAX
    } else {
        (a + b) as usize
    }
}

/// What follows the model's response once its text is recorded: the turn-end hooks when
/// the model stopped or was cancelled, the dispatch of the requested calls when it asked
/// for tools, and a failure otherwise.
pub open spec fn decided(pre: TurnMachine, post: TurnMachine, step: TurnStep) -> bool {
    match pre.finish_reason {
        FinishReason::Stop | FinishReason::Length | FinishReason::Cancelled => {
            let cancelled = pre.finish_reason == FinishReason::Cancelled;
            &&& post.phase == (TurnPhase::AwaitTurnEnd { cancelled })
            &&& post.total_tool_calls == pre.total_tool_calls
            &&& step.emits@.len() == 0
            &&& step.action matches TurnAction::RunTurnEndHooks { assistant_output, tool_calls_count, cancelled: c }
                && assistant_output@ == pre.assistant_output@ && tool_calls_count == pre.total_tool_calls && c == cancelled
        },
        FinishReason::ToolCalls => if pre.requested@.len() == 0 {
            &&& post.phase == TurnPhase::Done
            &&& post.total_tool_calls == pre.total_tool_calls
            &&& fails_as(step, AgentErrorCode::ProviderError, "provider returned ToolCalls finish reason without tool calls"@)
        } else {
            &&& post.phase == TurnPhase::AwaitDispatch
            &&& post.total_tool_calls == saturating_sum(pre.total_tool_calls, pre.requested@.len() as int)
            &&& step.emits@.len() == 0
            &&& step.action matches TurnAction::Dispatch(batch) && batch.calls@ == pre.requested@
        },
        FinishReason::Error => {
            &&& post.phase == TurnPhase::Done
            &&& post.total_tool_calls == pre.total_tool_calls
            &&& fails_as(step, AgentErrorCode::ProviderError, "provider finished with error"@)
        },
    }
}

/// What follows the end of the model's stream: the streamed text, if there is any, is
/// appended to the ledger first.
pub open spec fn stream_ended(pre: TurnMachine, post: TurnMachine, step: TurnStep) -> bool {
    if pre.text_buffer@.len() > 0 {
        &&& post.phase == TurnPhase::AwaitAssistantAppend
        &&& post.total_tool_calls == pre.total_tool_calls
        &&& post.finish_reason == pre.finish_reason
        &&& post.requested == pre.requested
        &&& step.emits@.len() == 0
        &&& step.action matches TurnAction::AppendEvent(p) && p@ == assistant_payload(pre.text_buffer@, pre.finish_reason)
    } else {
        decided(pre, post, step)
    }
}

/// The event that announces the start of a recorded call.
pub open spec fn call_start_event(r: ToolExecutionRecord) -> AgentEvent {
    AgentEvent::ToolCallStart {
        call_id: r.call.call_id,
        tool_name: r.call.tool_name,
        arguments: r.call.effective_arguments,
    }
}

/// The event that announces the end of a recorded call.
pub open spec fn call_end_event(r: ToolExecutionRecord) -> AgentEvent {
    AgentEvent::ToolCallEnd { call_id: r.call.call_id, tool_name: r.call.tool_name, output: r.result_record.output }
}

/// What follows once the records before `i` are in the ledger, with `prior` already
/// streamed: the call record of record `i`, announced by its start event; after the last
/// record the batch's abort reason ends the turn, or the next request is built, without
/// tools once `max` calls were made.
pub open spec fn replayed(pre: TurnMachine, i: int, prior: Seq<AgentEventEnvelope>, post: TurnMachine, step: TurnStep, max: usize) -> bool {
    if i < pre.records@.len() {
        &&& post.phase == (TurnPhase::AwaitCallAppend { index: i as usize })
        &&& post.allow_tools == pre.allow_tools
        &&& post.next_sequence == pre.next_sequence + 1
        &&& step.emits@ == prior.push(AgentEventEnvelope { sequence: pre.next_sequence, event: call_start_event(pre.records@[i]) })
        &&& step.action matches TurnAction::AppendEvent(p) && p@ == (PayloadView::ToolCall { call: pre.records@[i].call_record })
    } else {
        &&& post.next_sequence == pre.next_sequence
        &&& step.emits@ == prior
        &&& match pre.dispatch_aborted {
            Some(reason) => {
                &&& post.phase == TurnPhase::Done
                &&& post.allow_tools == pre.allow_tools
                &&& step.action matches TurnAction::Finish(TurnOutcome::Failed(e)) && error_is(e, AgentErrorCode::HookAborted, reason@)
            },
            None => {
                &&& post.phase == TurnPhase::AwaitRequestInputs
                &&& post.allow_tools == tools_still_allowed(pre.allow_tools, pre.total_tool_calls, max)
                &&& step.action is FetchRequestInputs
            },
        }
    }
}

impl TurnMachine {
    /// Whether the index of a pending ledger append names one of the dispatch's records.
    pub open spec fn wf(self) -> bool {
        match self.phase {
            TurnPhase::AwaitCallAppend { index } => index < self.records@.len(),
            TurnPhase::AwaitResultAppend { index } => index < self.records@.len(),
            _ => true,
        }
    }

    /// The fields that no step after the request changes.
    pub open spec fn same_turn(self, other: TurnMachine) -> bool {
        &&& self.turn_id == other.turn_id
        &&& self.content == other.content
        &&& self.augmentation == other.augmentation
        &&& self.dynamic_sections == other.dynamic_sections
        &&& self.assistant_output == other.assistant_output
    }

    fn decide(&mut self) -> (step: TurnStep)
        ensures
            decided(*old(self), *final(self), step),
            final(self).same_turn(*old(self)),
            final(self).allow_tools == old(self).allow_tools,
            final(self).next_sequence == old(self).next_sequence,
            final(self).records == old(self).records,
            final(self).dispatch_aborted == old(self).dispatch_aborted,
    {
        match self.finish_reason {
            FinishReason::Stop | FinishReason::Length | FinishReason::Cancelled => {
                let cancelled = self.finish_reason == FinishReason::Cancelled;
                self.phase = TurnPhase::AwaitTurnEnd { cancelled };
                TurnStep {
                    emits: Vec::new(),
                    action: TurnAction::RunTurnEndHooks {
                        assistant_output: self.assistant_output.clone(),
                        tool_calls_count: self.total_tool_calls,
                        cancelled,
                    },
                }
            },
            FinishReason::ToolCalls => {
                if self.requested.len() == 0 {
                    return self.fail(AgentError::new(
                        AgentErrorCode::ProviderError,
                        "provider returned ToolCalls finish reason without tool calls".to_owned(),
                    ));
                }
                self.total_tool_calls = self.total_tool_calls.saturating_add(self.requested.len());
                let mut calls: Vec<RequestedToolCall> = Vec::new();
                std::mem::swap(&mut calls, &mut self.requested);
                self.phase = TurnPhase::AwaitDispatch;
                TurnStep { emits: Vec::new(), action: TurnAction::Dispatch(RequestedToolBatch { calls }) }
            },
            FinishReason::Error => self.fail(
                AgentError::new(AgentErrorCode::ProviderError, "provider finished with error".to_owned()),
            ),
        }
    }

    fn end_stream(&mut self) -> (step: TurnStep)
        ensures
            stream_ended(*old(self), *final(self), step),
            final(self).same_turn(*old(self)),
            final(self).allow_tools == old(self).allow_tools,
            final(self).next_sequence == old(self).next_sequence,
            final(self).records == old(self).records,
            final(self).dispatch_aborted == old(self).dispatch_aborted,
    {
        if self.text_buffer.as_str().is_empty() {
            self.decide()
        } else {
            let status = if self.finish_reason == FinishReason::Cancelled {
                MessageStatus::Incomplete
            } else {
                MessageStatus::Complete
            };
            let mut content: Vec<ContentBlock> = Vec::new();
            content.push(ContentBlock::text(self.text_buffer.as_str()));
            proof {
                assert(blocks_view(content@) =~= seq![BlockView::Text { text: self.text_buffer@ }]);
            }
            self.phase = TurnPhase::AwaitAssistantAppend;
            TurnStep { emits: Vec::new(), action: TurnAction::AppendEvent(SessionEventPayload::AssistantMessage { content, status }) }
        }
    }

    /// One item of the provider's stream, and whether the turn was cancelled by then.
    /// Text is streamed and collected, reasoning is streamed, requested calls are
    /// collected; the stream ends with its finish reason, or as cancelled when it failed
    /// after a cancellation. A provider error ends the turn.
    pub fn on_chat_item(&mut self, item: Result<ChatEvent, ProviderError>, cancelled: bool) -> (step: TurnStep)
        requires
            old(self).phase == TurnPhase::Streaming,
            old(self).room(),
        ensures
            final(self).content == old(self).content,
            final(self).turn_id == old(self).turn_id,
            final(self).augmentation == old(self).augmentation,
            final(self).dynamic_sections == old(self).dynamic_sections,
            final(self).allow_tools == old(self).allow_tools,
            final(self).records == old(self).records,
            final(self).dispatch_aborted == old(self).dispatch_aborted,
            match item {
                Ok(ChatEvent::TextDelta { text }) => {
                    &&& final(self).phase == TurnPhase::Streaming
                    &&& final(self).assistant_output@ == old(self).assistant_output@ + text@
                    &&& final(self).text_buffer@ == old(self).text_buffer@ + text@
                    &&& final(self).requested == old(self).requested
                    &&& final(self).total_tool_calls == old(self).total_tool_calls
                    &&& final(self).next_sequence == old(self).next_sequence + 1
                    &&& numbered(step.emits@, old(self).next_sequence, seq![AgentEvent::TextDelta { text }])
                    &&& step.action is NextChatItem
                },
                Ok(ChatEvent::ReasoningDelta { text }) => {
                    &&& final(self).phase == TurnPhase::Streaming
                    &&& final(self).same_loop_state(*old(self))
                    &&& final(self).text_buffer == old(self).text_buffer
                    &&& final(self).requested == old(self).requested
                    &&& final(self).next_sequence == old(self).next_sequence + 1
                    &&& numbered(step.emits@, old(self).next_sequence, seq![AgentEvent::ReasoningDelta { text }])
                    &&& step.action is NextChatItem
                },
                Ok(ChatEvent::ToolCall { call_id, tool_name, arguments }) => {
                    &&& final(self).phase == TurnPhase::Streaming
                    &&& final(self).same_loop_state(*old(self))
                    &&& final(self).text_buffer == old(self).text_buffer
                    &&& final(self).requested@ == old(self).requested@.push(
                        RequestedToolCall { call_id, tool_name, requested_arguments: arguments },
                    )
                    &&& final(self).next_sequence == old(self).next_sequence
                    &&& step.emits@.len() == 0
                    &&& step.action is NextChatItem
                },
                Ok(ChatEvent::Done { finish_reason, .. }) => {
                    let pre = TurnMachine { finish_reason, ..*old(self) };
                    &&& final(self).same_turn(*old(self))
                    &&& final(self).next_sequence == old(self).next_sequence
                    &&& stream_ended(pre, *final(self), step)
                },
                Ok(ChatEvent::Error(pe)) => {
                    &&& final(self).phase == TurnPhase::Done
                    &&& final(self).same_loop_state(*old(self))
                    &&& fails_with(step, from_provider(pe))
                },
                Err(pe) => if cancelled {
                    let pre = TurnMachine { finish_reason: FinishReason::Cancelled, ..*old(self) };
                    &&& final(self).same_turn(*old(self))
                    &&& final(self).next_sequence == old(self).next_sequence
                    &&& stream_ended(pre, *final(self), step)
                } else {
                    &&& final(self).phase == TurnPhase::Done
                    &&& final(self).same_loop_state(*old(self))
                    &&& fails_with(step, from_provider(pe))
                },
            },
    {
        match item {
            Ok(ChatEvent::TextDelta { text }) => {
                self.assistant_output.append(text.as_str());
                self.text_buffer.append(text.as_str());
                let mut emits: Vec<AgentEventEnvelope> = Vec::new();
                self.emit(&mut emits, AgentEvent::TextDelta { text });
                TurnStep { emits, action: TurnAction::NextChatItem }
            },
            Ok(ChatEvent::ReasoningDelta { text }) => {
                let mut emits: Vec<AgentEventEnvelope> = Vec::new();
                self.emit(&mut emits, AgentEvent::ReasoningDelta { text });
                TurnStep { emits, action: TurnAction::NextChatItem }
            },
            Ok(ChatEvent::ToolCall { call_id, tool_name, arguments }) => {
                self.requested.push(RequestedToolCall { call_id, tool_name, requested_arguments: arguments });
                TurnStep { emits: Vec::new(), action: TurnAction::NextChatItem }
            },
            Ok(ChatEvent::Done { finish_reason, .. }) => {
                self.finish_reason = finish_reason;
                self.end_stream()
            },
            Ok(ChatEvent::Error(pe)) => self.fail(AgentError::from(pe)),
            Err(pe) => {
                if cancelled {
                    self.finish_reason = FinishReason::Cancelled;
                    self.end_stream()
                } else {
                    self.fail(AgentError::from(pe))
                }
            },
        }
    }

    /// The provider's stream ended without a finish reason: the model's text so far is
    /// recorded and the turn fails as a provider error.
    pub fn on_chat_ended(&mut self) -> (step: TurnStep)
        requires
            old(self).phase == TurnPhase::Streaming,
        ensures
            final(self).same_turn(*old(self)),
            final(self).allow_tools == old(self).allow_tools,
            final(self).next_sequence == old(self).next_sequence,
            stream_ended(*old(self), *final(self), step),
    {
        self.end_stream()
    }

    /// The streamed text was appended (or not); the response is acted on next.
    pub fn on_assistant_appended(&mut self, result: Result<u64, AgentError>) -> (step: TurnStep)
        requires
            old(self).phase == TurnPhase::AwaitAssistantAppend,
        ensures
            final(self).same_turn(*old(self)),
            final(self).allow_tools == old(self).allow_tools,
            final(self).next_sequence == old(self).next_sequence,
            match result {
                Err(e) => final(self).phase == TurnPhase::Done && fails_with(step, e),
                Ok(_) => decided(*old(self), *final(self), step),
            },
    {
        match result {
            Err(e) => self.fail(e),
            Ok(_) => self.decide(),
        }
    }

    /// The turn-end hooks ran: the turn finishes with the outcome streamed last.
    pub fn on_turn_end_done(&mut self) -> (step: TurnStep)
        requires
            old(self).phase is AwaitTurnEnd,
            old(self).room(),
        ensures
            final(self).phase == TurnPhase::Done,
            ({
                let outcome = end_outcome(old(self).phase->cancelled);
                &&& numbered(step.emits@, old(self).next_sequence, seq![AgentEvent::TurnFinished { outcome }])
                &&& step.action == TurnAction::Finish(outcome)
            }),
    {
        let cancelled = match self.phase {
            TurnPhase::AwaitTurnEnd { cancelled } => cancelled,
            _ => false,
        };
        let outcome = if cancelled {
            TurnOutcome::Cancelled
        } else {
            TurnOutcome::Completed
        };
        let mut emits: Vec<AgentEventEnvelope> = Vec::new();
        self.emit(&mut emits, AgentEvent::TurnFinished { outcome: outcome.clone() });
        self.phase = TurnPhase::Done;
        TurnStep { emits, action: TurnAction::Finish(outcome) }
    }

    fn replay(&mut self, i: usize, emits: Vec<AgentEventEnvelope>, max: usize) -> (step: TurnStep)
        requires
            i <= old(self).records@.len(),
            old(self).next_sequence < u64::MAX,
        ensures
            replayed(*old(self), i as int, emits@, *final(self), step, max),
            final(self).same_turn(*old(self)),
            final(self).total_tool_calls == old(self).total_tool_calls,
            final(self).records == old(self).records,
            final(self).dispatch_aborted == old(self).dispatch_aborted,
            final(self).wf(),
    {
        let mut emits = emits;
        if i < self.records.len() {
            let r = &self.records[i];
            let event = AgentEvent::ToolCallStart {
                call_id: r.call.call_id.clone(),
                tool_name: r.call.tool_name.clone(),
                arguments: clone_json(&r.call.effective_arguments),
            };
            let payload = SessionEventPayload::ToolCall { call: r.call_record.clone() };
            self.emit(&mut emits, event);
            self.phase = TurnPhase::AwaitCallAppend { index: i };
            TurnStep { emits, action: TurnAction::AppendEvent(payload) }
        } else {
            match &self.dispatch_aborted {
                Some(reason) => {
                    let e = AgentError::new(AgentErrorCode::HookAborted, reason.clone());
                    self.phase = TurnPhase::Done;
                    TurnStep { emits, action: TurnAction::Finish(TurnOutcome::Failed(e)) }
                },
                None => {
                    if self.total_tool_calls >= max {
                        self.allow_tools = false;
                    }
                    self.phase = TurnPhase::AwaitRequestInputs;
                    TurnStep { emits, action: TurnAction::FetchRequestInputs }
                },
            }
        }
    }

    /// The batch was dispatched. Its records are written to the ledger one by one, each
    /// call record announced by a start event and each result record followed by an end
    /// event; a record with an abort reason, or an aborted batch, ends the turn after it.
    pub fn on_dispatched(&mut self, result: ToolDispatchResult, env: &TurnEnvironment) -> (step: TurnStep)
        requires
            old(self).phase == TurnPhase::AwaitDispatch,
            old(self).room(),
        ensures
            final(self).records == result.records,
            final(self).dispatch_aborted == result.aborted_reason,
            final(self).wf(),
            final(self).same_turn(*old(self)),
            final(self).total_tool_calls == old(self).total_tool_calls,
            replayed(
                TurnMachine { records: result.records, dispatch_aborted: result.aborted_reason, ..*old(self) },
                0,
                Seq::empty(),
                *final(self),
                step,
                env.resolved_config.runtime_policy.max_tool_calls_per_turn,
            ),
    {
        self.records = result.records;
        self.dispatch_aborted = result.aborted_reason;
        self.replay(0, Vec::new(), env.resolved_config.runtime_policy.max_tool_calls_per_turn)
    }

    /// A call record was appended (or not); its result record is appended next.
    pub fn on_call_appended(&mut self, result: Result<u64, AgentError>) -> (step: TurnStep)
        requires
            old(self).phase is AwaitCallAppend,
            old(self).wf(),
        ensures
            final(self).same_turn(*old(self)),
            final(self).allow_tools == old(self).allow_tools,
            final(self).total_tool_calls == old(self).total_tool_calls,
            final(self).next_sequence == old(self).next_sequence,
            final(self).records == old(self).records,
            final(self).dispatch_aborted == old(self).dispatch_aborted,
            final(self).wf(),
            match result {
                Err(e) => final(self).phase == TurnPhase::Done && fails_with(step, e),
                Ok(_) => {
                    let i = old(self).phase->AwaitCallAppend_index;
                    &&& final(self).phase == (TurnPhase::AwaitResultAppend { index: i })
                    &&& step.emits@.len() == 0
                    &&& step.action matches TurnAction::AppendEvent(p) && p@ == (PayloadView::ToolResult {
                        result: old(self).records@[i as int].result_record,
                    })
                },
            },
    {
        match result {
            Err(e) => self.fail(e),
            Ok(_) => {
                let i = match self.phase {
                    TurnPhase::AwaitCallAppend { index } => index,
                    _ => 0,
                };
                let payload = SessionEventPayload::ToolResult { result: self.records[i].result_record.clone() };
                self.phase = TurnPhase::AwaitResultAppend { index: i };
                TurnStep { emits: Vec::new(), action: TurnAction::AppendEvent(payload) }
            },
        }
    }

    /// A result record was appended (or not): the call's end event is streamed, and the
    /// turn fails on the record's abort reason or goes on with the next record.
    pub fn on_result_appended(&mut self, result: Result<u64, AgentError>, env: &TurnEnvironment) -> (step: TurnStep)
        requires
            old(self).phase is AwaitResultAppend,
            old(self).wf(),
            old(self).room(),
        ensures
            final(self).same_turn(*old(self)),
            final(self).total_tool_calls == old(self).total_tool_calls,
            final(self).records == old(self).records,
            final(self).dispatch_aborted == old(self).dispatch_aborted,
            final(self).wf(),
            match result {
                Err(e) => final(self).phase == TurnPhase::Done && fails_with(step, e) && final(self).next_sequence
                    == old(self).next_sequence,
                Ok(_) => {
                    let i = old(self).phase->AwaitResultAppend_index as int;
                    let r = old(self).records@[i];
                    let end = seq![AgentEventEnvelope { sequence: old(self).next_sequence, event: call_end_event(r) }];
                    match r.abort_reason {
                        Some(reason) => {
                            &&& final(self).phase == TurnPhase::Done
                            &&& step.emits@ == end
                            &&& step.action matches TurnAction::Finish(TurnOutcome::Failed(e)) && error_is(
                                e,
                                AgentErrorCode::HookAborted,
                                reason@,
                            )
                        },
                        None => replayed(
                            TurnMachine { next_sequence: (old(self).next_sequence + 1) as u64, ..*old(self) },
                            i + 1,
                            end,
                            *final(self),
                            step,
                            env.resolved_config.runtime_policy.max_tool_calls_per_turn,
                        ),
                    }
                },
            },
    {
        match result {
            Err(e) => self.fail(e),
            Ok(_) => {
                let i = match self.phase {
                    TurnPhase::AwaitResultAppend { index } => index,
                    _ => 0,
                };
                assert(i < self.records@.len());
                let event = AgentEvent::ToolCallEnd {
                    call_id: self.records[i].call.call_id.clone(),
                    tool_name: self.records[i].call.tool_name.clone(),
                    output: self.records[i].result_record.output.clone(),
                };
                let mut emits: Vec<AgentEventEnvelope> = Vec::new();
                self.emit(&mut emits, event);
                match &self.records[i].abort_reason {
                    Some(reason) => {
                        let e = AgentError::new(AgentErrorCode::HookAborted, reason.clone());
                        self.phase = TurnPhase::Done;
                        TurnStep { emits, action: TurnAction::Finish(TurnOutcome::Failed(e)) }
                    },
                    None => {
                        let n = self.records.len();
                        assert(i < n);
                        self.replay(i + 1, emits, env.resolved_config.runtime_policy.max_tool_calls_per_turn)
                    },
                }
            },
        }
    }
}

/// A turn's first request offers the tools. The machine that `start` gives allows tools
/// with no call made; the steps before the first request (the user message appended,
/// the skills recorded when any were invoked, the turn-start hooks, the memories searched
/// when there is text to search, and stored) keep the tools flag and the call count, so
/// the machine that builds the first request still allows tools with no call made.
pub proof fn lemma_first_request_offers_tools(
    started: TurnMachine,
    appended: TurnMachine,
    recorded: TurnMachine,
    hooked: TurnMachine,
    searched: TurnMachine,
    stored: TurnMachine,
)
    requires
        started.allow_tools,
        started.total_tool_calls == 0,
        appended.same_loop_state_but_augmentation(started),
        recorded == appended || recorded.same_loop_state(appended),
        hooked.same_loop_state_but_sections(recorded),
        searched == hooked || searched.same_loop_state(hooked),
        stored.same_loop_state(searched),
    ensures
        stored.allow_tools,
        stored.total_tool_calls == 0,
{
}

/// How a model's finish reason ends a turn once the streamed text is recorded. A model
/// that stopped, or stopped at its token limit, ends the turn normally: its text is
/// recorded as complete, the turn-end hooks run with `cancelled == false` and the turn
/// ends `Completed`. Only a model that finished with an error fails the turn, as a
/// provider error, without the turn-end hooks; the turn-end hooks run exactly for the
/// stop, token-limit and cancellation reasons.
pub proof fn lemma_finish_reason_outcome(pre: TurnMachine, post: TurnMachine, step: TurnStep, text: Seq<char>)
    requires
        decided(pre, post, step),
    ensures
        pre.finish_reason == FinishReason::Stop || pre.finish_reason == FinishReason::Length ==> {
            &&& assistant_payload(text, pre.finish_reason) matches PayloadView::AssistantMessage { status, .. }
                && status == MessageStatus::Complete
            &&& post.phase == (TurnPhase::AwaitTurnEnd { cancelled: false })
            &&& step.action matches TurnAction::RunTurnEndHooks { cancelled, .. } && !cancelled
            &&& end_outcome(false) == TurnOutcome::Completed
        },
        pre.finish_reason == FinishReason::Error ==> {
            &&& post.phase == TurnPhase::Done
            &&& step.action matches TurnAction::Finish(TurnOutcome::Failed(e)) && e.code == AgentErrorCode::ProviderError
        },
        (step.action is RunTurnEndHooks) <==> (pre.finish_reason == FinishReason::Stop || pre.finish_reason
            == FinishReason::Length || pre.finish_reason == FinishReason::Cancelled),
{
}

} // verus!
