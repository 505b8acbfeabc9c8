//! The append-only session ledger: the single source of truth of a session.

use vstd::prelude::*;
use serde_json::Value;
use crate::domain::content::{blocks_view, clone_blocks, BlockView, ContentBlock};
use crate::domain::memory::MemoryCheckpointRecord;
use crate::domain::session::{clone_opt_compaction, CompactionRecord};
use crate::domain::tool::ToolOutput;
use crate::json::{
    clone_json, json_array, json_array_value, json_map_entries, json_map_insert, json_object, json_object_value, json_string,
    json_string_value, new_json_map,
};
use crate::text::str_eq;

verus! {

/// Whether an assistant message was streamed to its end.
#[derive(Debug, Clone, Copy, PartialEq, Eq, Structural)]
pub enum MessageStatus {
    Complete,
    Incomplete,
}

/// The result of a tool call as recorded.
#[derive(Debug, PartialEq)]
pub struct ToolResultRecord {
    pub call_id: String,
    pub tool_name: String,
    pub output: ToolOutput,
}

impl Clone for ToolResultRecord {
    fn clone(&self) -> (r: Self)
        ensures
            r == *self,
    {
        ToolResultRecord { call_id: self.call_id.clone(), tool_name: self.tool_name.clone(), output: self.output.clone() }
    }
}

/// A tool call as recorded: what the model asked and what the tool was given.
#[derive(Debug, PartialEq)]
pub struct ToolCallRecord {
    pub call_id: String,
    pub tool_name: String,
    pub requested_arguments: Value,
    pub effective_arguments: Value,
}

impl Clone for ToolCallRecord {
    fn clone(&self) -> (r: Self)
        ensures
            r == *self,
    {
        ToolCallRecord {
            call_id: self.call_id.clone(),
            tool_name: self.tool_name.clone(),
            requested_arguments: clone_json(&self.requested_arguments),
            effective_arguments: clone_json(&self.effective_arguments),
        }
    }
}

/// What a ledger event records.
#[derive(Debug, PartialEq)]
pub enum SessionEventPayload {
    UserMessage { content: Vec<ContentBlock> },
    AssistantMessage { content: Vec<ContentBlock>, status: MessageStatus },
    ToolCall { call: ToolCallRecord },
    ToolResult { result: ToolResultRecord },
    SystemMessage { content: String },
    Metadata { key: String, value: Value },
}

/// The mathematical model of a payload: message content as a sequence of blocks.
pub enum PayloadView {
    UserMessage { content: Seq<BlockView> },
    AssistantMessage { content: Seq<BlockView>, status: MessageStatus },
    ToolCall { call: ToolCallRecord },
    ToolResult { result: ToolResultRecord },
    SystemMessage { content: Seq<char> },
    Metadata { key: Seq<char>, value: Value },
}

impl View for SessionEventPayload {
    type V = PayloadView;

    open spec fn view(&self) -> PayloadView {
        match self {
            SessionEventPayload::UserMessage { content } => PayloadView::UserMessage {
                content: blocks_view(content@),
            },
            SessionEventPayload::AssistantMessage { content, status } => PayloadView::AssistantMessage {
                content: blocks_view(content@),
                status: *status,
            },
            SessionEventPayload::ToolCall { call } => PayloadView::ToolCall { call: *call },
            SessionEventPayload::ToolResult { result } => PayloadView::ToolResult { result: *result },
            SessionEventPayload::SystemMessage { content } => PayloadView::SystemMessage { content: content@ },
            SessionEventPayload::Metadata { key, value } => PayloadView::Metadata { key: key@, value: *value },
        }
    }
}

impl Clone for SessionEventPayload {
    fn clone(&self) -> (r: Self)
        ensures
            r@ == self@,
    {
        match self {
            SessionEventPayload::UserMessage { content } => SessionEventPayload::UserMessage {
                content: clone_blocks(content),
            },
            SessionEventPayload::AssistantMessage { content, status } => SessionEventPayload::AssistantMessage {
                content: clone_blocks(content),
                status: *status,
            },
            SessionEventPayload::ToolCall { call } => SessionEventPayload::ToolCall { call: call.clone() },
            SessionEventPayload::ToolResult { result } => SessionEventPayload::ToolResult { result: result.clone() },
            SessionEventPayload::SystemMessage { content } => SessionEventPayload::SystemMessage {
                content: content.clone(),
            },
            SessionEventPayload::Metadata { key, value } => SessionEventPayload::Metadata {
                key: key.clone(),
                value: clone_json(value),
            },
        }
    }
}

/// One ledger event. `timestamp` is in microseconds since the Unix epoch.
#[derive(Debug, PartialEq)]
pub struct LedgerEvent {
    pub seq: u64,
    pub timestamp: i64,
    pub payload: SessionEventPayload,
}

/// The mathematical model of a ledger event.
pub struct LedgerEventView {
    pub seq: u64,
    pub timestamp: i64,
    pub payload: PayloadView,
}

impl View for LedgerEvent {
    type V = LedgerEventView;

    open spec fn view(&self) -> LedgerEventView {
        LedgerEventView { seq: self.seq, timestamp: self.timestamp, payload: self.payload@ }
    }
}

impl Clone for LedgerEvent {
    fn clone(&self) -> (r: Self)
        ensures
            r@ == self@,
    {
        LedgerEvent { seq: self.seq, timestamp: self.timestamp, payload: self.payload.clone() }
    }
}

/// The events of a session, in the order they were appended.
#[derive(Debug, Default, PartialEq)]
pub struct SessionLedger {
    events: Vec<LedgerEvent>,
}

/// The metadata key under which a session's pinned configuration is recorded.
pub const SESSION_PROFILE_KEY: &'static str = "session_profile";
/// The metadata key under which the skills invoked by a turn are recorded.
pub const SKILL_INVOCATIONS_KEY: &'static str = "skill_invocations";
/// The JSON record of one invoked skill: an object whose `skill_name` is the skill's name.
pub open spec fn skill_entry(name: Seq<char>) -> Value {
    json_object_value(Map::empty().insert("skill_name"@, json_string_value(name)))
}

/// The records of the invoked skills `names`, in order.
pub open spec fn skill_entries(names: Seq<String>) -> Seq<Value> {
    names.map_values(|n: String| skill_entry(n@))
}

/// The metadata value that records the skills a turn invoked: an array with one record
/// per skill, in the order given.
pub fn skill_invocations_value(names: &Vec<String>) -> (v: Value)
    ensures
        v == json_array_value(skill_entries(names@)),
{
    let mut items: Vec<Value> = Vec::new();
    let mut i: usize = 0;
    while i < names.len()
        invariant
            i <= names.len(),
            items@ == skill_entries(names@).take(i as int),
        decreases names.len() - i,
    {
        let mut m = new_json_map();
        json_map_insert(&mut m, "skill_name".to_owned(), json_string(names[i].as_str()));
        assert(json_map_entries(m) =~= Map::empty().insert("skill_name"@, json_string_value(names@[i as int]@)));
        items.push(json_object(m));
        assert(skill_entries(names@).take(i + 1) =~= skill_entries(names@).take(i as int).push(
            skill_entry(names@[i as int]@),
        ));
        i += 1;
    }
    assert(skill_entries(names@).take(i as int) =~= skill_entries(names@));
    json_array(items)
}

/// The metadata key under which a context compaction is recorded.
pub const CONTEXT_COMPACTION_KEY: &'static str = "context_compaction";
/// The metadata key under which a memory checkpoint is recorded.
pub const MEMORY_CHECKPOINT_KEY: &'static str = "memory_checkpoint";

/// Whether the payload is a user, assistant or system message.
pub open spec fn is_message_payload(p: PayloadView) -> bool {
    p is UserMessage || p is AssistantMessage || p is SystemMessage
}

/// The number of message events among `events`.
pub open spec fn count_messages(events: Seq<LedgerEventView>) -> nat
    decreases events.len(),
{
    if events.len() == 0 {
        0
    } else {
        count_messages(events.drop_last()) + if is_message_payload(events.last().payload) {
            1nat
        } else {
            0nat
        }
    }
}

/// Whether the events are numbered one by one from 1, in order.
pub open spec fn numbered_from_one(events: Seq<LedgerEventView>) -> bool {
    forall|i: int| 0 <= i < events.len() ==> (#[trigger] events[i]).seq == i + 1
}

/// Whether the payload is metadata under `key`.
pub open spec fn is_metadata_with_key(p: PayloadView, key: Seq<char>) -> bool {
    p matches PayloadView::Metadata { key: k, .. } && k == key
}

/// Among the first `n` events, the decoded value of the last event that is metadata under
/// `key` and whose value decodes (`decoded[i]` is what the value of event `i` decodes to).
pub open spec fn latest_decoded<T>(events: Seq<LedgerEventView>, decoded: Seq<Option<T>>, key: Seq<char>, n: int) -> Option<T>
    decreases n,
{
    if n <= 0 {
        None
    } else if is_metadata_with_key(events[n - 1].payload, key) && decoded[n - 1] is Some {
        decoded[n - 1]
    } else {
        latest_decoded(events, decoded, key, n - 1)
    }
}

impl View for SessionLedger {
    type V = Seq<LedgerEventView>;

    closed spec fn view(&self) -> Seq<LedgerEventView> {
        self.events@.map_values(|e: LedgerEvent| e@)
    }
}

/// Calls `chrono::Utc::now` and reads it as microseconds since the Unix epoch. The clock
/// decides the result, so nothing is stated of it.
#[verifier::external_body]
pub(crate) fn now_micros() -> i64 {
    chrono::Utc::now().timestamp_micros()
}

impl SessionLedger {
    /// An empty ledger.
    pub fn new() -> (r: Self)
        ensures
            r@.len() == 0,
            numbered_from_one(r@),
    {
        SessionLedger { events: Vec::new() }
    }

    /// A ledger holding the given events as they are.
    pub fn with_events(events: Vec<LedgerEvent>) -> (r: Self)
        ensures
            r@ == events@.map_values(|e: LedgerEvent| e@),
    {
        SessionLedger { events }
    }

    /// The events, in order.
    pub fn events(&self) -> (r: &[LedgerEvent])
        ensures
            r@.map_values(|e: LedgerEvent| e@) == self@,
    {
        self.events.as_slice()
    }

    /// Appends a payload stamped with `timestamp`; its seq is the ledger's new length.
    pub fn append_payload_at(&mut self, payload: SessionEventPayload, timestamp: i64) -> (r: LedgerEvent)
        requires
            old(self)@.len() < u64::MAX,
        ensures
            r@ == (LedgerEventView { seq: (old(self)@.len() + 1) as u64, timestamp, payload: payload@ }),
            final(self)@ == old(self)@.push(r@),
            numbered_from_one(old(self)@) ==> numbered_from_one(final(self)@),
    {
        let event = LedgerEvent { seq: self.events.len() as u64 + 1, timestamp, payload };
        let r = event.clone();
        let ghost before = self@;
        self.events.push(event);
        assert(self@ =~= before.push(r@));
        r
    }

    /// Appends a payload stamped with the current time; its seq is the ledger's new length.
    pub fn append_payload(&mut self, payload: SessionEventPayload) -> (r: LedgerEvent)
        requires
            old(self)@.len() < u64::MAX,
        ensures
            r.seq == old(self)@.len() + 1,
            r@.payload == payload@,
            final(self)@ == old(self)@.push(r@),
            numbered_from_one(old(self)@) ==> numbered_from_one(final(self)@),
    {
        let now = now_micros();
        self.append_payload_at(payload, now)
    }

    /// The number of user, assistant and system message events.
    pub fn message_count(&self) -> (r: u64)
        ensures
            r == count_messages(self@),
    {
        let mut count: u64 = 0;
        let mut i: usize = 0;
        while i < self.events.len()
            invariant
                i <= self.events.len(),
                count == count_messages(self@.take(i as int)),
                count <= i,
            decreases self.events.len() - i,
        {
            assert(self@.take(i + 1).drop_last() =~= self@.take(i as int));
            let is_message = match &self.events[i].payload {
                SessionEventPayload::UserMessage { .. } => true,
                SessionEventPayload::AssistantMessage { .. } => true,
                SessionEventPayload::SystemMessage { .. } => true,
                _ => false,
            };
            if is_message {
                count += 1;
            }
            i += 1;
        }
        assert(self@.take(i as int) =~= self@);
        count
    }

    /// The latest compaction recorded in the ledger whose value decodes; `decoded[i]` is
    /// what the metadata value of event `i` decodes to as a compaction record.
    pub fn latest_compaction(&self, decoded: &Vec<Option<CompactionRecord>>) -> (r: Option<CompactionRecord>)
        requires
            decoded.len() == self@.len(),
        ensures
            r == latest_decoded(self@, decoded@, CONTEXT_COMPACTION_KEY@, self@.len() as int),
    {
        let mut i = self.events.len();
        while i > 0
            invariant
                i <= self.events.len(),
                decoded.len() == self@.len(),
                latest_decoded(self@, decoded@, CONTEXT_COMPACTION_KEY@, self@.len() as int)
                    == latest_decoded(self@, decoded@, CONTEXT_COMPACTION_KEY@, i as int),
            decreases i,
        {
            if let SessionEventPayload::Metadata { key, .. } = &self.events[i - 1].payload {
                if str_eq(key.as_str(), CONTEXT_COMPACTION_KEY) && decoded[i - 1].is_some() {
                    return clone_opt_compaction(&decoded[i - 1]);
                }
            }
            i -= 1;
        }
        None
    }

    /// The latest memory checkpoint recorded in the ledger whose value decodes; `decoded[i]`
    /// is what the metadata value of event `i` decodes to as a checkpoint.
    pub fn latest_memory_checkpoint(&self, decoded: &Vec<Option<MemoryCheckpointRecord>>) -> (r: Option<MemoryCheckpointRecord>)
        requires
            decoded.len() == self@.len(),
        ensures
            r == latest_decoded(self@, decoded@, MEMORY_CHECKPOINT_KEY@, self@.len() as int),
    {
        let mut i = self.events.len();
        while i > 0
            invariant
                i <= self.events.len(),
                decoded.len() == self@.len(),
                latest_decoded(self@, decoded@, MEMORY_CHECKPOINT_KEY@, self@.len() as int)
                    == latest_decoded(self@, decoded@, MEMORY_CHECKPOINT_KEY@, i as int),
            decreases i,
        {
            if let SessionEventPayload::Metadata { key, .. } = &self.events[i - 1].payload {
                if str_eq(key.as_str(), MEMORY_CHECKPOINT_KEY) && decoded[i - 1].is_some() {
                    return decoded[i - 1];
                }
            }
            i -= 1;
        }
        None
    }
}

} // verus!
