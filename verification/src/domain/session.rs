//! Session summaries, queries and the projected context of a session.

use vstd::prelude::*;
use crate::domain::content::{Message, MessageView};
use crate::text::clone_opt_string;

verus! {

/// What a session catalog shows of a session. Times are microseconds since the Unix epoch.
#[derive(Debug, PartialEq, Eq)]
pub struct SessionSummary {
    pub session_id: String,
    pub title: String,
    pub created_at: i64,
    pub updated_at: i64,
    pub message_count: u64,
}

impl Clone for SessionSummary {
    fn clone(&self) -> (r: Self)
        ensures
            r == *self,
    {
        SessionSummary {
            session_id: self.session_id.clone(),
            title: self.title.clone(),
            created_at: self.created_at,
            updated_at: self.updated_at,
            message_count: self.message_count,
        }
    }
}

/// A page request: up to `limit` sessions after the one named by `cursor`.
#[derive(Debug, Clone, PartialEq, Eq)]
pub struct SessionListQuery {
    pub cursor: Option<String>,
    pub limit: usize,
}

/// A search over session ids and titles.
#[derive(Debug, Clone, PartialEq, Eq)]
pub enum SessionSearchQuery {
    IdPrefix(String),
    TitleContains(String),
    IdPrefixOrTitle(String),
}

/// One page of sessions and the cursor of the next page, if there may be one.
#[derive(Debug, Clone, PartialEq, Eq)]
pub struct SessionPage {
    pub items: Vec<SessionSummary>,
    pub next_cursor: Option<String>,
}

/// How older history was compacted.
#[derive(Debug, Clone, Copy, PartialEq, Eq, Structural)]
pub enum CompactionMode {
    Summary,
    TruncationFallback,
}

/// A compaction: the ledger events up to `replaces_through_seq` are replaced by the summary.
#[derive(Debug, PartialEq, Eq)]
pub struct CompactionRecord {
    pub mode: CompactionMode,
    pub replaces_through_seq: u64,
    pub summary_body: Option<String>,
}

impl Clone for CompactionRecord {
    fn clone(&self) -> (r: Self)
        ensures
            r == *self,
    {
        CompactionRecord {
            mode: self.mode,
            replaces_through_seq: self.replaces_through_seq,
            summary_body: clone_opt_string(&self.summary_body),
        }
    }
}

/// A copy of an optional compaction record.
pub fn clone_opt_compaction(v: &Option<CompactionRecord>) -> (r: Option<CompactionRecord>)
    ensures
        r == *v,
{
    match v {
        Some(c) => Some(c.clone()),
        None => None,
    }
}

/// A message of the projected context and the ledger event it came from, if any.
#[derive(Debug, PartialEq, Eq)]
pub struct VisibleMessage {
    pub source_seq: Option<u64>,
    pub message: Message,
}

/// The mathematical model of a visible message.
pub struct VisibleMessageView {
    pub source_seq: Option<u64>,
    pub message: MessageView,
}

impl View for VisibleMessage {
    type V = VisibleMessageView;

    open spec fn view(&self) -> VisibleMessageView {
        VisibleMessageView { source_seq: self.source_seq, message: self.message@ }
    }
}

impl Clone for VisibleMessage {
    fn clone(&self) -> (r: Self)
        ensures
            r@ == self@,
    {
        VisibleMessage { source_seq: self.source_seq, message: self.message.clone() }
    }
}

/// The context projected from a session's ledger.
#[derive(Debug, PartialEq, Eq)]
pub struct ContextState {
    pub latest_compaction: Option<CompactionRecord>,
    pub visible_messages: Vec<VisibleMessage>,
    pub history_estimated_tokens: usize,
}

/// The mathematical model of a projected context.
pub struct ContextStateView {
    pub latest_compaction: Option<CompactionRecord>,
    pub visible_messages: Seq<VisibleMessageView>,
    pub history_estimated_tokens: usize,
}

impl View for ContextState {
    type V = ContextStateView;

    open spec fn view(&self) -> ContextStateView {
        ContextStateView {
            latest_compaction: self.latest_compaction,
            visible_messages: self.visible_messages@.map_values(|m: VisibleMessage| m@),
            history_estimated_tokens: self.history_estimated_tokens,
        }
    }
}

impl Clone for ContextState {
    fn clone(&self) -> (r: Self)
        ensures
            r@ == self@,
    {
        let mut visible: Vec<VisibleMessage> = Vec::new();
        let mut i: usize = 0;
        while i < self.visible_messages.len()
            invariant
                i <= self.visible_messages.len(),
                visible.len() == i,
                forall|j: int| 0 <= j < i ==> #[trigger] visible@[j]@ == self.visible_messages@[j]@,
            decreases self.visible_messages.len() - i,
        {
            visible.push(self.visible_messages[i].clone());
            i += 1;
        }
        let r = ContextState {
            latest_compaction: clone_opt_compaction(&self.latest_compaction),
            visible_messages: visible,
            history_estimated_tokens: self.history_estimated_tokens,
        };
        assert(r@.visible_messages =~= self@.visible_messages);
        r
    }
}

impl Default for ContextState {
    fn default() -> (r: Self)
        ensures
            r.latest_compaction is None,
            r.visible_messages@.len() == 0,
            r.history_estimated_tokens == 0,
    {
        ContextState { latest_compaction: None, visible_messages: Vec::new(), history_estimated_tokens: 0 }
    }
}

} // verus!
