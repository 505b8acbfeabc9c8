//! Session bookkeeping: the agent's session slot, a session's turn state, and the
//! projections (title, summary, context) that are recomputed from its ledger.

use vstd::prelude::*;
use crate::application::context_manager::{projected_context, ContextManager};
use crate::domain::content::{BlockView, ContentBlock};
use crate::domain::error::{AgentError, AgentErrorCode};
use crate::domain::ledger::{
    count_messages, numbered_from_one, is_metadata_with_key, now_micros, LedgerEvent, LedgerEventView, PayloadView,
    SessionEventPayload, SessionLedger, SESSION_PROFILE_KEY,
};
use crate::domain::memory::{Memory, SessionMemoryState};
use crate::domain::session::{clone_opt_compaction, CompactionRecord, ContextState, ContextStateView, SessionSummary};
use crate::text::{first_line, first_line_str, join, join_strings, split_whitespace, str_chars, str_eq, trim, trim_str, words};

verus! {

/// The title a session has before any user message gives it one.
pub const UNTITLED_SESSION: &'static str = "Untitled session";

/// The words that do not start with `/`.
pub open spec fn plain_words(ws: Seq<Seq<char>>) -> Seq<Seq<char>>
    decreases ws.len(),
{
    if ws.len() == 0 {
        Seq::empty()
    } else {
        plain_words(ws.drop_last()) + if ws.last().len() > 0 && ws.last()[0] == '/' {
            Seq::empty()
        } else {
            seq![ws.last()]
        }
    }
}

/// The title a typed text gives: the words of its first line that are not commands,
/// separated by single spaces.
pub open spec fn text_title(text: Seq<char>) -> Seq<char> {
    let line = trim(first_line(text));
    if line.len() == 0 {
        Seq::empty()
    } else {
        trim(join(plain_words(words(line)), " "@))
    }
}

/// The title a block gives: that of its typed text, or the trimmed first line of a file.
pub open spec fn block_title(b: BlockView) -> Seq<char> {
    match b {
        BlockView::Text { text } => text_title(text),
        BlockView::FileContent { text, .. } => trim(first_line(text)),
        BlockView::Image { .. } => Seq::empty(),
    }
}

/// The first non-empty title among the blocks.
pub open spec fn first_block_title(bs: Seq<BlockView>) -> Option<Seq<char>>
    decreases bs.len(),
{
    if bs.len() == 0 {
        None
    } else if block_title(bs[0]).len() > 0 {
        Some(block_title(bs[0]))
    } else {
        first_block_title(bs.drop_first())
    }
}

/// The first non-empty title that a user message of the ledger gives.
pub open spec fn ledger_title(events: Seq<LedgerEventView>) -> Option<Seq<char>>
    decreases events.len(),
{
    if events.len() == 0 {
        None
    } else {
        match events[0].payload {
            PayloadView::UserMessage { content } => match first_block_title(content) {
                Some(t) => Some(t),
                None => ledger_title(events.drop_first()),
            },
            _ => ledger_title(events.drop_first()),
        }
    }
}

/// The title of a session with the given ledger.
pub open spec fn session_title(events: Seq<LedgerEventView>) -> Seq<char> {
    match ledger_title(events) {
        Some(t) => t,
        None => UNTITLED_SESSION@,
    }
}

fn plain_words_of(ws: &Vec<String>) -> (r: Vec<String>)
    ensures
        r.deep_view() == plain_words(ws.deep_view()),
{
    let mut out: Vec<String> = Vec::new();
    let mut i: usize = 0;
    while i < ws.len()
        invariant
            i <= ws.len(),
            out.deep_view() == plain_words(ws.deep_view().take(i as int)),
        decreases ws.len() - i,
    {
        assert(ws.deep_view().take(i + 1).drop_last() =~= ws.deep_view().take(i as int));
        let v = str_chars(ws[i].as_str());
        let ghost b = out.deep_view();
        if v.len() > 0 && v[0] == '/' {
            assert(b + Seq::<Seq<char>>::empty() =~= b);
        } else {
            out.push(ws[i].clone());
            assert(out.deep_view() =~= b + seq![ws.deep_view()[i as int]]);
        }
        i += 1;
    }
    assert(ws.deep_view().take(i as int) =~= ws.deep_view());
    out
}

/// The title a typed text gives.
pub fn normalize_text_title(text: &str) -> (r: String)
    ensures
        r@ == text_title(text@),
{
    let first = trim_str(first_line_str(text).as_str());
    if first.as_str().is_empty() {
        return String::new();
    }
    let ws = split_whitespace(first.as_str());
    let kept = plain_words_of(&ws);
    trim_str(join_strings(&kept, " ").as_str())
}

fn block_title_of(block: &ContentBlock) -> (r: String)
    ensures
        r@ == block_title(block@),
{
    match block {
        ContentBlock::Text { text } => normalize_text_title(text.as_str()),
        ContentBlock::FileContent { text, .. } => trim_str(first_line_str(text.as_str()).as_str()),
        ContentBlock::Image { .. } => String::new(),
    }
}

fn first_block_title_of(content: &Vec<ContentBlock>) -> (r: Option<String>)
    ensures
        match r {
            Some(t) => first_block_title(crate::domain::content::blocks_view(content@)) == Some(t@),
            None => first_block_title(crate::domain::content::blocks_view(content@)) is None,
        },
{
    let ghost bv = crate::domain::content::blocks_view(content@);
    assert(bv.skip(0) =~= bv);
    let mut i: usize = 0;
    while i < content.len()
        invariant
            i <= content.len(),
            bv == crate::domain::content::blocks_view(content@),
            first_block_title(bv) == first_block_title(bv.skip(i as int)),
        decreases content.len() - i,
    {
        assert(bv.skip(i as int)[0] == content@[i as int]@);
        assert(bv.skip(i as int).drop_first() =~= bv.skip(i + 1));
        let t = block_title_of(&content[i]);
        if !t.as_str().is_empty() {
            return Some(t);
        }
        i += 1;
    }
    assert(bv.skip(i as int) =~= Seq::<BlockView>::empty());
    None
}

/// The title of a session: the first title that one of its user messages gives, or
/// "Untitled session".
pub fn project_title(ledger: &SessionLedger) -> (r: String)
    ensures
        r@ == session_title(ledger@),
{
    let events = ledger.events();
    let ghost ev = ledger@;
    assert(ev.skip(0) =~= ev);
    let mut i: usize = 0;
    while i < events.len()
        invariant
            i <= events.len(),
            events@.map_values(|e: LedgerEvent| e@) == ev,
            ev == ledger@,
            ledger_title(ev) == ledger_title(ev.skip(i as int)),
        decreases events.len() - i,
    {
        assert(ev.skip(i as int)[0] == events@[i as int]@);
        assert(ev.skip(i as int).drop_first() =~= ev.skip(i + 1));
        if let SessionEventPayload::UserMessage { content } = &events[i].payload {
            if let Some(t) = first_block_title_of(content) {
                let ghost rest = ev.skip(i as int);
                assert(rest[0].payload == PayloadView::UserMessage {
                    content: crate::domain::content::blocks_view(content@),
                });
                assert(rest.len() > 0);
                assert(ledger_title(rest) == Some(t@));
                return t;
            }
        }
        i += 1;
    }
    assert(ev.skip(i as int) =~= Seq::<LedgerEventView>::empty());
    UNTITLED_SESSION.to_owned()
}

/// Whether `s` summarizes a session with id `session_id` and the given ledger, where
/// `now` stands for the creation time of a session whose ledger is empty.
pub open spec fn summary_of(s: SessionSummary, session_id: Seq<char>, events: Seq<LedgerEventView>, now: i64) -> bool {
    &&& s.session_id@ == session_id
    &&& s.title@ == session_title(events)
    &&& s.created_at == if events.len() > 0 {
        events[0].timestamp
    } else {
        now
    }
    &&& s.updated_at == if events.len() > 0 {
        events.last().timestamp
    } else {
        now
    }
    &&& s.message_count == count_messages(events)
}

/// The summary of a session projected from its ledger; `now` is the creation time of a
/// session whose ledger is still empty.
pub fn project_summary_at(session_id: &str, ledger: &SessionLedger, now: i64) -> (r: SessionSummary)
    ensures
        summary_of(r, session_id@, ledger@, now),
{
    let events = ledger.events();
    let ghost ev = ledger@;
    let created_at = if events.len() > 0 {
        assert(ev[0] == events@[0]@);
        events[0].timestamp
    } else {
        now
    };
    let updated_at = if events.len() > 0 {
        assert(ev.last() == events@[events.len() - 1]@);
        events[events.len() - 1].timestamp
    } else {
        created_at
    };
    SessionSummary {
        session_id: session_id.to_owned(),
        title: project_title(ledger),
        created_at,
        updated_at,
        message_count: ledger.message_count(),
    }
}

/// The summary of a session projected from its ledger; a session whose ledger is still
/// empty was created (and last updated) at the current time.
pub fn project_summary(session_id: &str, ledger: &SessionLedger) -> (r: SessionSummary)
    ensures
        exists|now: i64| #[trigger] summary_of(r, session_id@, ledger@, now),
{
    let now = now_micros();
    project_summary_at(session_id, ledger, now)
}

/// Whether event `k` is the first that records a session profile.
pub open spec fn is_first_profile(events: Seq<LedgerEventView>, k: int) -> bool {
    &&& 0 <= k < events.len()
    &&& is_metadata_with_key(events[k].payload, SESSION_PROFILE_KEY@)
    &&& forall|j: int| 0 <= j < k ==> !is_metadata_with_key(#[trigger] events[j].payload, SESSION_PROFILE_KEY@)
}

/// The position of the first event that records the session profile, if any.
pub fn session_profile_index(ledger: &SessionLedger) -> (r: Option<usize>)
    ensures
        match r {
            Some(k) => is_first_profile(ledger@, k as int),
            None => forall|j: int| 0 <= j < ledger@.len() ==> !is_metadata_with_key(
                #[trigger] ledger@[j].payload,
                SESSION_PROFILE_KEY@,
            ),
        },
{
    let events = ledger.events();
    let ghost ev = ledger@;
    let mut i: usize = 0;
    while i < events.len()
        invariant
            i <= events.len(),
            events@.map_values(|e: LedgerEvent| e@) == ev,
            ev == ledger@,
            forall|j: int| 0 <= j < i ==> !is_metadata_with_key(#[trigger] ev[j].payload, SESSION_PROFILE_KEY@),
        decreases events.len() - i,
    {
        assert(ev[i as int] == events@[i as int]@);
        if let SessionEventPayload::Metadata { key, .. } = &events[i].payload {
            if str_eq(key.as_str(), SESSION_PROFILE_KEY) {
                assert(is_metadata_with_key(ev[i as int].payload, SESSION_PROFILE_KEY@));
                assert(is_first_profile(ev, i as int));
                return Some(i);
            }
        }
        i += 1;
    }
    None
}

/// The error for a ledger that holds no session profile.
pub fn missing_profile_error() -> (e: AgentError)
    ensures
        e.code == AgentErrorCode::SessionNotFound,
        e.message@ == "session profile metadata is missing"@,
        !e.retryable,
{
    AgentError::new(AgentErrorCode::SessionNotFound, "session profile metadata is missing".to_owned())
}

/// Where the agent is in its life.
#[derive(Debug, Clone, Copy, PartialEq, Eq, Structural)]
pub enum LifecycleState {
    Running,
    ShuttingDown,
    Shutdown,
}

/// The agent's single session slot. A slot is reserved while a session is being set up,
/// then holds the active session's runtime `R`.
#[derive(Debug)]
pub enum SessionSlotState<R> {
    Empty,
    Reserved { reservation_id: String, session_id: String },
    Active { session_id: String, runtime: R },
}

/// The agent's lifecycle and its session slot.
#[derive(Debug)]
pub struct AgentControlState<R> {
    pub lifecycle: LifecycleState,
    pub slot: SessionSlotState<R>,
}

/// Calls `uuid::Uuid::new_v4` and renders the id as a string. The id is random, so
/// nothing is stated of it.
#[verifier::external_body]
pub(crate) fn new_uuid_string() -> String {
    uuid::Uuid::new_v4().to_string()
}

/// Whether the slot holds a reservation with the id `reservation_id`.
pub open spec fn reserved_with<R>(slot: SessionSlotState<R>, reservation_id: Seq<char>) -> bool {
    slot matches SessionSlotState::Reserved { reservation_id: r, .. } && r@ == reservation_id
}

/// The id of the session that holds the slot, reserved or active.
pub open spec fn slot_session_id<R>(slot: SessionSlotState<R>) -> Option<Seq<char>> {
    match slot {
        SessionSlotState::Empty => None,
        SessionSlotState::Reserved { session_id, .. } => Some(session_id@),
        SessionSlotState::Active { session_id, .. } => Some(session_id@),
    }
}

/// The control state after a reservation of the slot for `session_id` under
/// `reservation_id`: only a running agent with an empty slot takes it.
pub open spec fn after_reserve<R>(s: AgentControlState<R>, session_id: String, reservation_id: String) -> AgentControlState<R> {
    if s.lifecycle == LifecycleState::Running && s.slot is Empty {
        AgentControlState { lifecycle: s.lifecycle, slot: SessionSlotState::Reserved { reservation_id, session_id } }
    } else {
        s
    }
}

/// The control state after the reservation `reservation_id` is committed with `runtime`.
pub open spec fn after_commit<R>(s: AgentControlState<R>, reservation_id: Seq<char>, runtime: R) -> AgentControlState<R> {
    if reserved_with(s.slot, reservation_id) {
        AgentControlState {
            lifecycle: s.lifecycle,
            slot: SessionSlotState::Active { session_id: s.slot->Reserved_session_id, runtime },
        }
    } else {
        s
    }
}

/// The control state after the reservation `reservation_id` is rolled back.
pub open spec fn after_rollback<R>(s: AgentControlState<R>, reservation_id: Seq<char>) -> AgentControlState<R> {
    if reserved_with(s.slot, reservation_id) {
        AgentControlState { lifecycle: s.lifecycle, slot: SessionSlotState::Empty }
    } else {
        s
    }
}

/// The control state after the session `session_id` is released.
pub open spec fn after_release<R>(s: AgentControlState<R>, session_id: Seq<char>) -> AgentControlState<R> {
    if s.slot matches SessionSlotState::Active { session_id: a, .. } && a@ == session_id {
        AgentControlState { lifecycle: s.lifecycle, slot: SessionSlotState::Empty }
    } else {
        s
    }
}

impl<R> AgentControlState<R> {
    /// A running agent with an empty slot.
    pub fn new() -> (r: Self)
        ensures
            r.lifecycle == LifecycleState::Running,
            r.slot is Empty,
    {
        AgentControlState { lifecycle: LifecycleState::Running, slot: SessionSlotState::Empty }
    }

    /// Reserves the slot for a session under `reservation_id`. Refused while the agent
    /// shuts down, and while another session holds the slot; a refusal changes nothing.
    pub fn reserve_slot_with(&mut self, session_id: String, reservation_id: String) -> (r: Result<String, AgentError>)
        ensures
            old(self).lifecycle != LifecycleState::Running ==> {
                &&& r matches Err(e) && e.code == AgentErrorCode::AgentShutdown
                    && e.message@ == "agent is shutting down"@ && !e.retryable
                &&& *final(self) == *old(self)
            },
            old(self).lifecycle == LifecycleState::Running && !(old(self).slot is Empty) ==> {
                &&& r matches Err(e) && e.code == AgentErrorCode::SessionBusy
                    && e.message@ == "another session is already active"@ && !e.retryable
                &&& *final(self) == *old(self)
            },
            old(self).lifecycle == LifecycleState::Running && old(self).slot is Empty ==> r == Ok::<String, AgentError>(
                reservation_id,
            ),
            *final(self) == after_reserve(*old(self), session_id, reservation_id),
    {
        if self.lifecycle != LifecycleState::Running {
            return Err(AgentError::new(AgentErrorCode::AgentShutdown, "agent is shutting down".to_owned()));
        }
        match self.slot {
            SessionSlotState::Empty => {},
            _ => {
                return Err(AgentError::new(AgentErrorCode::SessionBusy, "another session is already active".to_owned()));
            },
        }
        self.slot = SessionSlotState::Reserved { reservation_id: reservation_id.clone(), session_id };
        Ok(reservation_id)
    }

    /// Reserves the slot for a session under a fresh random reservation id, and returns
    /// that id. Refused as `reserve_slot_with` refuses.
    pub fn reserve_slot(&mut self, session_id: String) -> (r: Result<String, AgentError>)
        ensures
            old(self).lifecycle != LifecycleState::Running ==> {
                &&& r matches Err(e) && e.code == AgentErrorCode::AgentShutdown
                &&& *final(self) == *old(self)
            },
            old(self).lifecycle == LifecycleState::Running && !(old(self).slot is Empty) ==> {
                &&& r matches Err(e) && e.code == AgentErrorCode::SessionBusy
                &&& *final(self) == *old(self)
            },
            old(self).lifecycle == LifecycleState::Running && old(self).slot is Empty ==> (r matches Ok(id)
                && *final(self) == after_reserve(*old(self), session_id, id)),
    {
        let reservation_id = new_uuid_string();
        self.reserve_slot_with(session_id, reservation_id)
    }

    /// Turns the reservation `reservation_id` into the active session with `runtime`.
    /// Refused, changing nothing, when the slot no longer holds that reservation.
    pub fn commit_slot(&mut self, reservation_id: &str, runtime: R) -> (r: Result<(), AgentError>)
        ensures
            reserved_with(old(self).slot, reservation_id@) ==> r is Ok,
            !reserved_with(old(self).slot, reservation_id@) ==> (r matches Err(e) && e.code == AgentErrorCode::SessionBusy
                && e.message@ == "session slot reservation was lost"@ && !e.retryable),
            *final(self) == after_commit(*old(self), reservation_id@, runtime),
    {
        let matches = match &self.slot {
            SessionSlotState::Reserved { reservation_id: current, .. } => str_eq(current.as_str(), reservation_id),
            _ => false,
        };
        if !matches {
            return Err(AgentError::new(AgentErrorCode::SessionBusy, "session slot reservation was lost".to_owned()));
        }
        let mut old_slot = SessionSlotState::Empty;
        std::mem::swap(&mut old_slot, &mut self.slot);
        match old_slot {
            SessionSlotState::Reserved { session_id, .. } => {
                self.slot = SessionSlotState::Active { session_id, runtime };
            },
            other => {
                self.slot = other;
            },
        }
        Ok(())
    }

    /// Ends the set-up of the session reserved under `reservation_id`: a set-up that
    /// produced `runtime` commits it, a failed one rolls the reservation back and hands
    /// its error on.
    pub fn settle_reservation(&mut self, reservation_id: &str, setup: Result<R, AgentError>) -> (r: Result<(), AgentError>)
        ensures
            match setup {
                Ok(runtime) => {
                    &&& *final(self) == after_commit(*old(self), reservation_id@, runtime)
                    &&& reserved_with(old(self).slot, reservation_id@) ==> r is Ok
                    &&& !reserved_with(old(self).slot, reservation_id@) ==> (r matches Err(e) && e.code
                        == AgentErrorCode::SessionBusy && e.message@ == "session slot reservation was lost"@)
                },
                Err(e) => {
                    &&& *final(self) == after_rollback(*old(self), reservation_id@)
                    &&& r == Err::<(), AgentError>(e)
                },
            },
    {
        match setup {
            Ok(runtime) => {
                let committed = self.commit_slot(reservation_id, runtime);
                if committed.is_err() {
                    self.rollback_slot(reservation_id);
                }
                committed
            },
            Err(e) => {
                self.rollback_slot(reservation_id);
                Err(e)
            },
        }
    }

    /// The active session's runtime, if a session is active.
    pub fn active_runtime(&self) -> (r: Option<&R>)
        ensures
            match self.slot {
                SessionSlotState::Active { runtime, .. } => r == Some(&runtime),
                _ => r is None,
            },
    {
        match &self.slot {
            SessionSlotState::Active { runtime, .. } => Some(runtime),
            _ => None,
        }
    }

    /// Empties the slot if it still holds the reservation `reservation_id`.
    pub fn rollback_slot(&mut self, reservation_id: &str)
        ensures
            *final(self) == after_rollback(*old(self), reservation_id@),
    {
        let matches = match &self.slot {
            SessionSlotState::Reserved { reservation_id: current, .. } => str_eq(current.as_str(), reservation_id),
            _ => false,
        };
        if matches {
            self.slot = SessionSlotState::Empty;
        }
    }

    /// Empties the slot if the session `session_id` is active in it.
    pub fn release_session(&mut self, session_id: &str)
        ensures
            *final(self) == after_release(*old(self), session_id@),
    {
        let matches = match &self.slot {
            SessionSlotState::Active { session_id: current, .. } => str_eq(current.as_str(), session_id),
            _ => false,
        };
        if matches {
            self.slot = SessionSlotState::Empty;
        }
    }

    /// The id of the session that holds the slot, reserved or active.
    pub fn active_session_id(&self) -> (r: Option<String>)
        ensures
            crate::domain::config::opt_view_is(r, slot_session_id(self.slot)),
    {
        match &self.slot {
            SessionSlotState::Empty => None,
            SessionSlotState::Reserved { session_id, .. } => Some(session_id.clone()),
            SessionSlotState::Active { session_id, .. } => Some(session_id.clone()),
        }
    }

    /// Whether the stored session `session_id` may be deleted: not while it holds the
    /// slot, reserved or active.
    pub fn check_deletable(&self, session_id: &str) -> (r: Result<(), AgentError>)
        ensures
            slot_session_id(self.slot) == Some(session_id@) ==> (r matches Err(e) && e.code == AgentErrorCode::SessionBusy
                && e.message@ == "cannot delete the active session"@ && !e.retryable),
            slot_session_id(self.slot) != Some(session_id@) ==> r is Ok,
    {
        let busy = match &self.slot {
            SessionSlotState::Empty => false,
            SessionSlotState::Reserved { session_id: current, .. } => str_eq(current.as_str(), session_id),
            SessionSlotState::Active { session_id: current, .. } => str_eq(current.as_str(), session_id),
        };
        if busy {
            Err(AgentError::new(AgentErrorCode::SessionBusy, "cannot delete the active session".to_owned()))
        } else {
            Ok(())
        }
    }

    /// Marks the agent as shutting down: no slot can be reserved from now on.
    pub fn begin_shutdown(&mut self)
        ensures
            final(self).lifecycle == LifecycleState::ShuttingDown,
            final(self).slot == old(self).slot,
    {
        self.lifecycle = LifecycleState::ShuttingDown;
    }

    /// Marks the agent as shut down.
    pub fn finish_shutdown(&mut self)
        ensures
            final(self).lifecycle == LifecycleState::Shutdown,
            final(self).slot == old(self).slot,
    {
        self.lifecycle = LifecycleState::Shutdown;
    }
}

/// The mutable state of a session: its ledger and everything projected from it, its
/// memories, and whether a turn is running or the session is closed.
///
/// `decoded_compactions[i]` is what the metadata value of ledger event `i` decodes to as
/// a compaction record; the context and the summary are always the projections of the
/// ledger.
#[derive(Debug)]
pub struct SessionRuntimeState {
    session_id: String,
    ledger: SessionLedger,
    decoded_compactions: Vec<Option<CompactionRecord>>,
    context_state: ContextState,
    memory_state: SessionMemoryState,
    summary: SessionSummary,
    turn_index: u64,
    active_turn: bool,
    closed: bool,
}

/// A copy of a sequence of optional compaction records.
fn clone_decoded(v: &Vec<Option<CompactionRecord>>) -> (r: Vec<Option<CompactionRecord>>)
    ensures
        r@ == v@,
{
    let mut r: Vec<Option<CompactionRecord>> = Vec::new();
    let mut i: usize = 0;
    while i < v.len()
        invariant
            i <= v.len(),
            r@ == v@.take(i as int),
        decreases v.len() - i,
    {
        r.push(clone_opt_compaction(&v[i]));
        assert(v@.take(i + 1) =~= v@.take(i as int).push(v@[i as int]));
        i += 1;
    }
    assert(v@.take(i as int) =~= v@);
    r
}

impl SessionRuntimeState {
    /// The session's id.
    pub closed spec fn session_id_view(self) -> Seq<char> {
        self.session_id@
    }

    /// The ledger's events.
    pub closed spec fn events(self) -> Seq<LedgerEventView> {
        self.ledger@
    }

    /// What each ledger event's metadata value decodes to as a compaction record.
    pub closed spec fn decoded(self) -> Seq<Option<CompactionRecord>> {
        self.decoded_compactions@
    }

    /// The projected context.
    pub closed spec fn context(self) -> ContextStateView {
        self.context_state@
    }

    /// The current summary.
    pub closed spec fn summary_spec(self) -> SessionSummary {
        self.summary
    }

    /// The memories.
    pub closed spec fn memories(self) -> SessionMemoryState {
        self.memory_state
    }

    /// The number of turns begun.
    pub closed spec fn turns(self) -> u64 {
        self.turn_index
    }

    /// Whether a turn is running.
    pub closed spec fn turn_running(self) -> bool {
        self.active_turn
    }

    /// Whether the session is closed.
    pub closed spec fn is_closed(self) -> bool {
        self.closed
    }

    /// The state is consistent: every ledger event has its decoded compaction, and the
    /// context and the summary are the projections of the ledger.
    pub open spec fn wf(self) -> bool {
        &&& self.decoded().len() == self.events().len()
        &&& self.context() == projected_context(self.events(), self.decoded())
        &&& exists|now: i64| #[trigger] summary_of(self.summary_spec(), self.session_id_view(), self.events(), now)
    }

    /// The state of a new session, created at `now`, with an empty ledger.
    pub fn created(session_id: String, bootstrap_memories: Vec<Memory>, now: i64) -> (r: Self)
        ensures
            r.wf(),
            r.session_id_view() == session_id@,
            r.events().len() == 0,
            numbered_from_one(r.events()),
            r.summary_spec().created_at == now,
            r.summary_spec().updated_at == now,
            r.memories().bootstrap_memories == bootstrap_memories,
            r.memories().last_turn_memories@.len() == 0,
            r.turns() == 0,
            !r.turn_running(),
            !r.is_closed(),
    {
        let ledger = SessionLedger::new();
        let decoded_compactions: Vec<Option<CompactionRecord>> = Vec::new();
        let context_state = ContextManager::rebuild_visible_messages(&ledger, &decoded_compactions);
        let summary = project_summary_at(session_id.as_str(), &ledger, now);
        assert(summary_of(summary, session_id@, ledger@, now));
        let r = SessionRuntimeState {
            session_id,
            ledger,
            decoded_compactions,
            context_state,
            memory_state: SessionMemoryState { bootstrap_memories, last_turn_memories: Vec::new() },
            summary,
            turn_index: 0,
            active_turn: false,
            closed: false,
        };
        assert(r.decoded_compactions@.len() == r.ledger@.len());
        assert(r.context_state@ == projected_context(r.ledger@, r.decoded_compactions@));
        assert(summary_of(r.summary_spec(), r.session_id_view(), r.events(), now));
        r
    }

    /// The state of a resumed session with the stored ledger; `decoded[i]` is what the
    /// metadata value of event `i` decodes to as a compaction record.
    pub fn resumed(session_id: String, ledger: SessionLedger, decoded: Vec<Option<CompactionRecord>>, bootstrap_memories: Vec<Memory>) -> (r: Self)
        requires
            decoded@.len() == ledger@.len(),
        ensures
            r.wf(),
            r.session_id_view() == session_id@,
            r.events() == ledger@,
            r.decoded() == decoded@,
            r.memories().bootstrap_memories == bootstrap_memories,
            r.memories().last_turn_memories@.len() == 0,
            r.turns() == 0,
            !r.turn_running(),
            !r.is_closed(),
    {
        let context_state = ContextManager::rebuild_visible_messages(&ledger, &decoded);
        let summary = project_summary(session_id.as_str(), &ledger);
        let ghost w = choose|now: i64| summary_of(summary, session_id@, ledger@, now);
        let r = SessionRuntimeState {
            session_id,
            ledger,
            decoded_compactions: decoded,
            context_state,
            memory_state: SessionMemoryState { bootstrap_memories, last_turn_memories: Vec::new() },
            summary,
            turn_index: 0,
            active_turn: false,
            closed: false,
        };
        assert(summary_of(r.summary_spec(), r.session_id_view(), r.events(), w));
        r
    }

    /// Whether one more event fits in the ledger (its seq must fit in a `u64`).
    pub fn can_append(&self) -> (r: bool)
        requires
            self.wf(),
        ensures
            r == (self.events().len() < u64::MAX),
    {
        (self.ledger.events().len() as u64) < u64::MAX
    }

    /// Appends a payload to the ledger, stamped with the current time, and recomputes the
    /// summary and the context from the ledger. `decoded` is what the payload's metadata
    /// value decodes to as a compaction record.
    pub fn append_event(&mut self, payload: SessionEventPayload, decoded: Option<CompactionRecord>) -> (r: LedgerEvent)
        requires
            old(self).wf(),
            old(self).events().len() < u64::MAX,
        ensures
            final(self).wf(),
            final(self).context() == projected_context(final(self).events(), final(self).decoded()),
            exists|now: i64| #[trigger] summary_of(final(self).summary_spec(), final(self).session_id_view(), final(self).events(), now),
            r.seq == old(self).events().len() + 1,
            r@.payload == payload@,
            final(self).events() == old(self).events().push(r@),
            numbered_from_one(old(self).events()) ==> numbered_from_one(final(self).events()),
            final(self).decoded() == old(self).decoded().push(decoded),
            final(self).session_id_view() == old(self).session_id_view(),
            final(self).memories() == old(self).memories(),
            final(self).turns() == old(self).turns(),
            final(self).turn_running() == old(self).turn_running(),
            final(self).is_closed() == old(self).is_closed(),
    {
        let event = self.ledger.append_payload(payload);
        self.decoded_compactions.push(decoded);
        self.summary = project_summary(self.session_id.as_str(), &self.ledger);
        self.context_state = ContextManager::rebuild_visible_messages(&self.ledger, &self.decoded_compactions);
        let ghost w = choose|now: i64| summary_of(self.summary_spec(), self.session_id_view(), self.events(), now);
        assert(summary_of(self.summary_spec(), self.session_id_view(), self.events(), w));
        event
    }

    /// Whether the session may be closed: not while a turn runs.
    pub fn check_closable(&self) -> (r: Result<(), AgentError>)
        ensures
            self.turn_running() ==> (r matches Err(e) && e.code == AgentErrorCode::TurnBusy
                && e.message@ == "cannot close a session while a turn is still running"@ && !e.retryable),
            !self.turn_running() ==> r is Ok,
    {
        if self.active_turn {
            Err(AgentError::new(
                AgentErrorCode::TurnBusy,
                "cannot close a session while a turn is still running".to_owned(),
            ))
        } else {
            Ok(())
        }
    }

    /// Begins a turn and returns its index, counted from one. Refused when the session is
    /// closed, and when a turn is already running; a refusal changes nothing.
    pub fn begin_turn(&mut self) -> (r: Result<u64, AgentError>)
        requires
            old(self).wf(),
            !old(self).is_closed() && !old(self).turn_running() ==> old(self).turns() < u64::MAX,
        ensures
            final(self).summary_spec() == old(self).summary_spec(),
            final(self).context() == old(self).context(),
            final(self).wf(),
            final(self).events() == old(self).events(),
            final(self).decoded() == old(self).decoded(),
            final(self).session_id_view() == old(self).session_id_view(),
            final(self).memories() == old(self).memories(),
            final(self).is_closed() == old(self).is_closed(),
            old(self).is_closed() ==> {
                &&& r matches Err(e) && e.code == AgentErrorCode::SessionNotFound
                    && e.message@ == "session is already closed"@ && !e.retryable
                &&& final(self).turns() == old(self).turns()
                &&& final(self).turn_running() == old(self).turn_running()
            },
            !old(self).is_closed() && old(self).turn_running() ==> {
                &&& r matches Err(e) && e.code == AgentErrorCode::TurnBusy
                    && e.message@ == "another turn is already running"@ && !e.retryable
                &&& final(self).turns() == old(self).turns()
                &&& final(self).turn_running()
            },
            !old(self).is_closed() && !old(self).turn_running() ==> {
                &&& r == Ok::<u64, AgentError>((old(self).turns() + 1) as u64)
                &&& final(self).turns() == old(self).turns() + 1
                &&& final(self).turn_running()
            },
    {
        let ghost w = choose|now: i64| summary_of(self.summary_spec(), self.session_id_view(), self.events(), now);
        if self.closed {
            assert(summary_of(self.summary_spec(), self.session_id_view(), self.events(), w));
            return Err(AgentError::new(AgentErrorCode::SessionNotFound, "session is already closed".to_owned()));
        }
        if self.active_turn {
            assert(summary_of(self.summary_spec(), self.session_id_view(), self.events(), w));
            return Err(AgentError::new(AgentErrorCode::TurnBusy, "another turn is already running".to_owned()));
        }
        self.active_turn = true;
        self.turn_index = self.turn_index + 1;
        assert(summary_of(self.summary_spec(), self.session_id_view(), self.events(), w));
        Ok(self.turn_index)
    }

    /// Ends the running turn, if any.
    pub fn finish_turn(&mut self)
        requires
            old(self).wf(),
        ensures
            final(self).summary_spec() == old(self).summary_spec(),
            final(self).context() == old(self).context(),
            final(self).wf(),
            !final(self).turn_running(),
            final(self).events() == old(self).events(),
            final(self).decoded() == old(self).decoded(),
            final(self).session_id_view() == old(self).session_id_view(),
            final(self).memories() == old(self).memories(),
            final(self).turns() == old(self).turns(),
            final(self).is_closed() == old(self).is_closed(),
    {
        let ghost w = choose|now: i64| summary_of(self.summary_spec(), self.session_id_view(), self.events(), now);
        self.active_turn = false;
        assert(summary_of(self.summary_spec(), self.session_id_view(), self.events(), w));
    }

    /// Closes the session.
    pub fn mark_closed(&mut self)
        requires
            old(self).wf(),
        ensures
            final(self).summary_spec() == old(self).summary_spec(),
            final(self).context() == old(self).context(),
            final(self).wf(),
            final(self).is_closed(),
            final(self).events() == old(self).events(),
            final(self).decoded() == old(self).decoded(),
            final(self).session_id_view() == old(self).session_id_view(),
            final(self).memories() == old(self).memories(),
            final(self).turns() == old(self).turns(),
            final(self).turn_running() == old(self).turn_running(),
    {
        let ghost w = choose|now: i64| summary_of(self.summary_spec(), self.session_id_view(), self.events(), now);
        self.closed = true;
        assert(summary_of(self.summary_spec(), self.session_id_view(), self.events(), w));
    }

    /// Replaces the memories found for the latest turn.
    pub fn set_last_turn_memories(&mut self, memories: Vec<Memory>)
        requires
            old(self).wf(),
        ensures
            final(self).summary_spec() == old(self).summary_spec(),
            final(self).context() == old(self).context(),
            final(self).wf(),
            final(self).memories().last_turn_memories == memories,
            final(self).memories().bootstrap_memories == old(self).memories().bootstrap_memories,
            final(self).events() == old(self).events(),
            final(self).decoded() == old(self).decoded(),
            final(self).session_id_view() == old(self).session_id_view(),
            final(self).turns() == old(self).turns(),
            final(self).turn_running() == old(self).turn_running(),
            final(self).is_closed() == old(self).is_closed(),
    {
        let ghost w = choose|now: i64| summary_of(self.summary_spec(), self.session_id_view(), self.events(), now);
        self.memory_state.last_turn_memories = memories;
        assert(summary_of(self.summary_spec(), self.session_id_view(), self.events(), w));
    }

    /// The session's id.
    pub fn session_id(&self) -> (r: &str)
        ensures
            r@ == self.session_id_view(),
    {
        self.session_id.as_str()
    }

    /// The ledger.
    pub fn ledger(&self) -> (r: &SessionLedger)
        ensures
            r@ == self.events(),
    {
        &self.ledger
    }

    /// The projected context.
    pub fn context_state(&self) -> (r: &ContextState)
        ensures
            r@ == self.context(),
    {
        &self.context_state
    }

    /// The memories.
    pub fn memory_state(&self) -> (r: &SessionMemoryState)
        ensures
            *r == self.memories(),
    {
        &self.memory_state
    }

    /// The summary.
    pub fn summary(&self) -> (r: &SessionSummary)
        ensures
            *r == self.summary_spec(),
    {
        &self.summary
    }

    /// Whether a turn is running.
    pub fn active_turn(&self) -> (r: bool)
        ensures
            r == self.turn_running(),
    {
        self.active_turn
    }

    /// Whether the session is closed.
    pub fn closed(&self) -> (r: bool)
        ensures
            r == self.is_closed(),
    {
        self.closed
    }

    /// The number of turns begun.
    pub fn turn_index(&self) -> (r: u64)
        ensures
            r == self.turns(),
    {
        self.turn_index
    }
}

/// A rollback undoes a reservation: reserving the empty slot of a running agent and then
/// rolling back that reservation gives back the state before.
pub proof fn lemma_rollback_undoes_reserve<R>(s: AgentControlState<R>, session_id: String, reservation_id: String)
    requires
        s.lifecycle == LifecycleState::Running,
        s.slot is Empty,
    ensures
        after_rollback(after_reserve(s, session_id, reservation_id), reservation_id@) == s,
{
}

/// A rollback only empties the slot it reserved: once the reservation is committed, or
/// under another reservation id, a rollback changes nothing.
pub proof fn lemma_rollback_spares_others<R>(s: AgentControlState<R>, session_id: String, reservation_id: String, runtime: R, other: Seq<char>)
    requires
        s.lifecycle == LifecycleState::Running,
        s.slot is Empty,
        other != reservation_id@,
    ensures
        ({
            let committed = after_commit(after_reserve(s, session_id, reservation_id), reservation_id@, runtime);
            after_rollback(committed, reservation_id@) == committed
        }),
        ({
            let reserved = after_reserve(s, session_id, reservation_id);
            after_rollback(reserved, other) == reserved
        }),
{
}

/// Committing a reservation makes its session the active one, and releasing that session
/// empties the slot again.
pub proof fn lemma_commit_then_release<R>(s: AgentControlState<R>, session_id: String, reservation_id: String, runtime: R)
    requires
        s.lifecycle == LifecycleState::Running,
        s.slot is Empty,
    ensures
        after_commit(after_reserve(s, session_id, reservation_id), reservation_id@, runtime).slot == (SessionSlotState::Active {
            session_id,
            runtime,
        }),
        after_release(after_commit(after_reserve(s, session_id, reservation_id), reservation_id@, runtime), session_id@)
            == s,
{
}

/// At most one session holds the slot: while it is held, and once shutdown has begun, a
/// reservation changes nothing.
pub proof fn lemma_single_session<R>(s: AgentControlState<R>, session_id: String, reservation_id: String)
    requires
        !(s.slot is Empty) || s.lifecycle != LifecycleState::Running,
    ensures
        after_reserve(s, session_id, reservation_id) == s,
{
}

/// What identifies a summary: the session id, the title, the two timestamps and the
/// message count.
pub open spec fn summary_view(s: SessionSummary) -> (Seq<char>, Seq<char>, i64, i64, u64) {
    (s.session_id@, s.title@, s.created_at, s.updated_at, s.message_count)
}

/// The projections of a session are functions of its ledger: two consistent states of
/// the same session with the same ledger (and decoded compactions) have the same context,
/// and, once the ledger holds an event, the same summary. So a session resumed from its
/// stored ledger projects what it projected before.
pub proof fn lemma_projections_follow_ledger(a: SessionRuntimeState, b: SessionRuntimeState)
    requires
        a.wf(),
        b.wf(),
        a.session_id_view() == b.session_id_view(),
        a.events() == b.events(),
        a.decoded() == b.decoded(),
    ensures
        a.context() == b.context(),
        a.events().len() > 0 ==> summary_view(a.summary_spec()) == summary_view(b.summary_spec()),
{
    let wa = choose|now: i64| summary_of(a.summary_spec(), a.session_id_view(), a.events(), now);
    let wb = choose|now: i64| summary_of(b.summary_spec(), b.session_id_view(), b.events(), now);
    assert(summary_of(a.summary_spec(), a.session_id_view(), a.events(), wa));
    assert(summary_of(b.summary_spec(), b.session_id_view(), b.events(), wb));
}

} // verus!
