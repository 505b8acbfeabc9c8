//! Dispatch of a batch of tool calls: resolving each call, scheduling the executions and
//! collecting one record per call in the model's order.
//!
//! The dispatcher is a state machine. The application layer performs its actions (running
//! the before-tool-use hooks of a call, executing a group of calls) and hands back their
//! results; the machine decides everything else.

use vstd::prelude::*;
use serde_json::Value;
use crate::domain::error::AgentError;
use crate::domain::ledger::{ToolCallRecord, ToolResultRecord};
use crate::domain::tool::{truncated, RequestedToolBatch, RequestedToolCall, ResolvedToolCall, ToolDescriptor, ToolInput, ToolOutput};
use crate::json::{
    clone_json, json_bool, json_bool_value, json_map_entries, json_map_insert, json_object, json_object_value, json_string,
    json_string_value, new_json_map,
};
use crate::text::{clone_opt_string, concat3, str_eq};

verus! {

/// What became of one tool call.
#[derive(Debug, PartialEq)]
pub struct ToolExecutionRecord {
    pub call: ResolvedToolCall,
    pub call_record: ToolCallRecord,
    pub result_record: ToolResultRecord,
    pub abort_reason: Option<String>,
}

impl Clone for ToolExecutionRecord {
    fn clone(&self) -> (r: Self)
        ensures
            r == *self,
    {
        ToolExecutionRecord {
            call: self.call.clone(),
            call_record: self.call_record.clone(),
            result_record: self.result_record.clone(),
            abort_reason: clone_opt_string(&self.abort_reason),
        }
    }
}

/// The records of a batch, in the model's order, and the first abort among the executed
/// calls.
#[derive(Debug, PartialEq, Default)]
pub struct ToolDispatchResult {
    pub records: Vec<ToolExecutionRecord>,
    pub aborted_reason: Option<String>,
}

/// The message recorded for a call to a tool that is not registered.
pub open spec fn missing_tool_message(name: Seq<char>) -> Seq<char> {
    "tool `"@ + name + "` is not registered"@
}

/// Whether `r` records `call` with `output` and `abort`: the call record repeats the
/// call's id, name and arguments, and the result record its id and name with the output.
pub open spec fn records_call(r: ToolExecutionRecord, call: ResolvedToolCall, output: ToolOutput, abort: Option<Seq<char>>) -> bool {
    &&& r.call == call
    &&& r.call_record == ToolCallRecord {
        call_id: call.call_id,
        tool_name: call.tool_name,
        requested_arguments: call.requested_arguments,
        effective_arguments: call.effective_arguments,
    }
    &&& r.result_record == ToolResultRecord { call_id: call.call_id, tool_name: call.tool_name, output }
    &&& crate::domain::config::opt_view_is(r.abort_reason, abort)
}

/// Whether `o` is an error output carrying `message`.
pub open spec fn error_output(o: ToolOutput, message: Seq<char>) -> bool {
    &&& o.content@ == message
    &&& o.is_error
    &&& o.metadata is None
}

/// Whether `r` is the record of a call whose tool is not registered.
pub open spec fn missing_tool_record(r: ToolExecutionRecord, req: RequestedToolCall) -> bool {
    &&& r.call == resolved_with(req, req.requested_arguments, false)
    &&& records_call(r, r.call, r.result_record.output, Some("tool not found"@))
    &&& error_output(r.result_record.output, missing_tool_message(req.tool_name@))
}

/// Whether the slot holds the record of a call to a tool that is not registered.
pub open spec fn missing_slot(slot: Option<ToolExecutionRecord>, req: RequestedToolCall, tools: Seq<ToolDescriptor>) -> bool {
    &&& slot matches Some(rec) && missing_tool_record(rec, req)
    &&& tool_index(tools, req.tool_name@) is None
}

/// Whether `r` is the record of a call whose before-tool-use hooks failed with `message`.
pub open spec fn hook_abort_record(r: ToolExecutionRecord, req: RequestedToolCall, mutating: bool, message: Seq<char>) -> bool {
    &&& r.call == resolved_with(req, req.requested_arguments, mutating)
    &&& records_call(r, r.call, r.result_record.output, Some("before_tool_use aborted"@))
    &&& error_output(r.result_record.output, message)
}

/// A record of `call` with `output` and `abort`.
pub fn make_record(call: ResolvedToolCall, output: ToolOutput, abort_reason: Option<String>) -> (r: ToolExecutionRecord)
    ensures
        records_call(r, call, output, crate::domain::content::opt_text(abort_reason)),
{
    let call_record = ToolCallRecord {
        call_id: call.call_id.clone(),
        tool_name: call.tool_name.clone(),
        requested_arguments: clone_json(&call.requested_arguments),
        effective_arguments: clone_json(&call.effective_arguments),
    };
    let result_record = ToolResultRecord { call_id: call.call_id.clone(), tool_name: call.tool_name.clone(), output };
    ToolExecutionRecord { call, call_record, result_record, abort_reason }
}

/// The call as resolved with `effective` arguments.
pub open spec fn resolved_with(req: RequestedToolCall, effective: Value, mutating: bool) -> ResolvedToolCall {
    ResolvedToolCall {
        call_id: req.call_id,
        tool_name: req.tool_name,
        requested_arguments: req.requested_arguments,
        effective_arguments: effective,
        mutating,
    }
}

/// The index of the first tool named `name`, if any.
pub open spec fn tool_index(tools: Seq<ToolDescriptor>, name: Seq<char>) -> Option<int> {
    if exists|i: int| 0 <= i < tools.len() && tools[i].name@ == name {
        Some(choose|i: int| 0 <= i < tools.len() && tools[i].name@ == name
            && forall|j: int| 0 <= j < i ==> tools[j].name@ != name)
    } else {
        None
    }
}

/// Finds the tool named `name`.
pub fn find_tool(tools: &Vec<ToolDescriptor>, name: &str) -> (r: Option<usize>)
    ensures
        match r {
            Some(i) => i < tools.len() && tool_index(tools@, name@) == Some(i as int) && tools@[i as int].name@ == name@,
            None => tool_index(tools@, name@) is None,
        },
{
    let mut i: usize = 0;
    while i < tools.len()
        invariant
            i <= tools.len(),
            forall|j: int| 0 <= j < i ==> tools@[j].name@ != name@,
        decreases tools.len() - i,
    {
        if str_eq(tools[i].name.as_str(), name) {
            proof {
                let k = choose|k: int| 0 <= k < tools@.len() && tools@[k].name@ == name@
                    && forall|j: int| 0 <= j < k ==> tools@[j].name@ != name@;
                if k < i {
                    assert(tools@[k].name@ != name@);
                }
                if k > i {
                    assert(tools@[i as int].name@ != name@);
                }
            }
            return Some(i);
        }
        i += 1;
    }
    None
}

/// What the dispatcher needs done next.
#[derive(Debug)]
pub enum DispatchAction {
    /// Run the before-tool-use hooks of the call at `index` of the batch on its arguments.
    RunBeforeToolUse { index: usize, call: RequestedToolCall },
    /// Execute these calls; they may run concurrently. Hand back one record per call, in
    /// the same order.
    ExecuteGroup { calls: Vec<ResolvedToolCall> },
    /// The batch is done.
    Done(ToolDispatchResult),
}

/// A batch of tool calls being dispatched.
#[derive(Debug)]
pub struct ToolDispatcher {
    /// The calls of the batch, in the model's order.
    pub calls: Vec<RequestedToolCall>,
    /// The record of each call of the batch that has one so far.
    pub slots: Vec<Option<ToolExecutionRecord>>,
    /// The calls to execute with their positions in the batch, in the model's order.
    pub pending: Vec<(usize, ResolvedToolCall)>,
    /// The next call to resolve.
    pub next_call: usize,
    /// The next pending call to execute.
    pub cursor: usize,
    /// The first abort among the executed calls, in execution order.
    pub aborted_reason: Option<String>,
    /// The size of the group being executed.
    pub group_len: usize,
}

/// The end of the run of pending calls that do not mutate, starting at `start`.
pub open spec fn read_only_run_end(pending: Seq<(usize, ResolvedToolCall)>, start: int) -> int
    decreases pending.len() - start,
{
    if start < 0 || start >= pending.len() || pending[start].1.mutating {
        start
    } else {
        read_only_run_end(pending, start + 1)
    }
}

/// The end of the group of pending calls that starts at `start`: a mutating call runs
/// alone, and calls that do not mutate run together as far as the next mutating call.
pub open spec fn group_end(pending: Seq<(usize, ResolvedToolCall)>, start: int) -> int {
    if start >= pending.len() {
        start
    } else if pending[start].1.mutating {
        start + 1
    } else {
        read_only_run_end(pending, start)
    }
}

proof fn lemma_run_end(pending: Seq<(usize, ResolvedToolCall)>, start: int, k: int)
    requires
        0 <= start <= k <= pending.len(),
        forall|j: int| start <= j < k ==> !(#[trigger] pending[j]).1.mutating,
        k == pending.len() || pending[k].1.mutating,
    ensures
        read_only_run_end(pending, start) == k,
    decreases k - start,
{
    if start < k {
        lemma_run_end(pending, start + 1, k);
    }
}

/// The first abort reason among the records, after `first` if that is already set.
pub open spec fn first_abort(first: Option<Seq<char>>, records: Seq<ToolExecutionRecord>) -> Option<Seq<char>>
    decreases records.len(),
{
    if first is Some || records.len() == 0 {
        first
    } else {
        first_abort(crate::domain::content::opt_text(records[0].abort_reason), records.drop_first())
    }
}

/// Whether `c` is the resolution of the requested call `req`: same id, tool and
/// requested arguments.
pub open spec fn same_call(c: ResolvedToolCall, req: RequestedToolCall) -> bool {
    &&& c.call_id == req.call_id
    &&& c.tool_name == req.tool_name
    &&& c.requested_arguments == req.requested_arguments
}

impl ToolDispatcher {
    /// The dispatcher is consistent. Every call before `next_call` is either recorded or
    /// pending (not both); pending calls keep the batch's order; the executed pending
    /// calls (those before `cursor`) are recorded and the others are not; no call from
    /// `next_call` on is recorded.
    pub open spec fn wf(self) -> bool {
        &&& self.slots@.len() == self.calls@.len()
        &&& self.next_call <= self.calls@.len()
        &&& self.cursor <= self.pending@.len()
        &&& forall|j: int| 0 <= j < self.pending@.len() ==> (#[trigger] self.pending@[j]).0 < self.next_call
        &&& forall|j1: int, j2: int| 0 <= j1 < j2 < self.pending@.len()
            ==> (#[trigger] self.pending@[j1]).0 < (#[trigger] self.pending@[j2]).0
        &&& forall|j: int| 0 <= j < self.cursor ==> (#[trigger] self.slots@[self.pending@[j].0 as int]) is Some
        &&& forall|j: int| self.cursor <= j < self.pending@.len()
            ==> (#[trigger] self.slots@[self.pending@[j].0 as int]) is None
        &&& forall|k: int| self.next_call <= k < self.calls@.len() ==> (#[trigger] self.slots@[k]) is None
        &&& forall|k: int| 0 <= k < self.next_call && (#[trigger] self.slots@[k]) is None
            ==> exists|j: int| self.cursor <= j < self.pending@.len() && #[trigger] self.pending@[j].0 == k
    }

    /// Every record and every pending call belongs to the call of the batch at its
    /// position.
    pub open spec fn calls_matched(self) -> bool {
        &&& forall|k: int| 0 <= k < self.slots@.len() ==> (#[trigger] self.slots@[k] matches Some(r) ==> same_call(
            r.call,
            self.calls@[k],
        ))
        &&& forall|j: int| 0 <= j < self.pending@.len() ==> same_call(
            (#[trigger] self.pending@[j]).1,
            self.calls@[self.pending@[j].0 as int],
        )
    }

    /// Whether the resolution of the calls is over.
    pub open spec fn resolved(self) -> bool {
        self.next_call == self.calls@.len()
    }

    /// Whether `a` is the right next action: the hooks of the next call to a known tool
    /// while calls remain to resolve; then the next group of pending calls; then the
    /// result.
    pub open spec fn action_ok(self, a: DispatchAction, tools: Seq<ToolDescriptor>) -> bool {
        if !self.resolved() {
            &&& a matches DispatchAction::RunBeforeToolUse { index, call }
            &&& index == self.next_call
            &&& call == self.calls@[index as int]
            &&& tool_index(tools, call.tool_name@) is Some
        } else {
            self.exec_action_ok(a)
        }
    }

    /// Whether `a` is the right next action once every call is resolved: the next group
    /// of pending calls, then the result.
    pub open spec fn exec_action_ok(self, a: DispatchAction) -> bool {
        if self.cursor < self.pending@.len() {
            &&& a matches DispatchAction::ExecuteGroup { calls }
            &&& self.group_len == group_end(self.pending@, self.cursor as int) - self.cursor
            &&& calls@ == self.pending@.subrange(self.cursor as int, self.cursor + self.group_len).map_values(
                |p: (usize, ResolvedToolCall)| p.1,
            )
        } else {
            &&& a matches DispatchAction::Done(result)
            &&& result.records@.len() == self.calls@.len()
            &&& forall|k: int| 0 <= k < self.calls@.len() ==> self.slots@[k] == Some(#[trigger] result.records@[k])
            &&& crate::domain::config::opt_view_is(result.aborted_reason, crate::domain::content::opt_text(self.aborted_reason))
        }
    }

    /// Starts dispatching `batch` and says what to do first.
    pub fn start(batch: RequestedToolBatch, tools: &Vec<ToolDescriptor>) -> (r: (Self, DispatchAction))
        ensures
            r.0.wf(),
            r.0.calls_matched(),
            r.0.calls@ == batch.calls@,
            r.0.action_ok(r.1, tools@),
            r.0.aborted_reason is None,
            forall|k: int| 0 <= k < r.0.next_call ==> missing_slot(#[trigger] r.0.slots@[k], batch.calls@[k], tools@),
            r.0.pending@.len() == 0,
    {
        let n = batch.calls.len();
        let mut slots: Vec<Option<ToolExecutionRecord>> = Vec::new();
        let mut i: usize = 0;
        while i < n
            invariant
                i <= n,
                slots@.len() == i,
                forall|k: int| 0 <= k < i ==> (#[trigger] slots@[k]) is None,
            decreases n - i,
        {
            slots.push(None);
            i += 1;
        }
        let mut d = ToolDispatcher {
            calls: batch.calls,
            slots,
            pending: Vec::new(),
            next_call: 0,
            cursor: 0,
            aborted_reason: None,
            group_len: 0,
        };
        let a = d.advance_resolution(tools);
        (d, a)
    }

    /// Records at once, from `next_call` on, each call to a tool that is not registered,
    /// up to the first call to a known tool, whose hooks are asked for. When every call
    /// is resolved, execution begins.
    #[verifier::rlimit(40)]
    fn advance_resolution(&mut self, tools: &Vec<ToolDescriptor>) -> (a: DispatchAction)
        requires
            old(self).wf(),
            old(self).calls_matched(),
        ensures
            final(self).wf(),
            final(self).calls_matched(),
            final(self).action_ok(a, tools@),
            final(self).calls == old(self).calls,
            final(self).pending == old(self).pending,
            final(self).aborted_reason == old(self).aborted_reason,
            final(self).next_call >= old(self).next_call,
            final(self).cursor == old(self).cursor,
            forall|k: int| 0 <= k < old(self).next_call ==> #[trigger] final(self).slots@[k] == old(self).slots@[k],
            forall|k: int| old(self).next_call <= k < final(self).next_call ==> missing_slot(#[trigger] final(self).slots@[k], final(self).calls@[k], tools@),
    {
        let ghost start = self.next_call;
        while self.next_call < self.calls.len()
            invariant
                self.wf(),
                self.calls_matched(),
                self.calls == old(self).calls,
                self.pending == old(self).pending,
                self.aborted_reason == old(self).aborted_reason,
                self.cursor == old(self).cursor,
                self.group_len == old(self).group_len,
                start == old(self).next_call,
                self.next_call >= start,
                forall|k: int| 0 <= k < start ==> #[trigger] self.slots@[k] == old(self).slots@[k],
                forall|k: int| start <= k < self.next_call ==> missing_slot(#[trigger] self.slots@[k], self.calls@[k], tools@),
            decreases self.calls.len() - self.next_call,
        {
            let i = self.next_call;
            match find_tool(tools, self.calls[i].tool_name.as_str()) {
                Some(_) => {
                    return DispatchAction::RunBeforeToolUse { index: i, call: self.calls[i].clone() };
                },
                None => {
                    let ghost pre = *self;
                    assert(pre.wf());
                    let req = &self.calls[i];
                    let call = ResolvedToolCall {
                        call_id: req.call_id.clone(),
                        tool_name: req.tool_name.clone(),
                        requested_arguments: clone_json(&req.requested_arguments),
                        effective_arguments: clone_json(&req.requested_arguments),
                        mutating: false,
                    };
                    let output = ToolOutput::error(concat3("tool `", req.tool_name.as_str(), "` is not registered"));
                    let record = make_record(call, output, Some("tool not found".to_owned()));
                    self.slots.set(i, Some(record));
                    self.next_call = i + 1;
                    assert forall|k: int| 0 <= k < self.next_call && (#[trigger] self.slots@[k]) is None implies exists|j: int|
                        self.cursor <= j < self.pending@.len() && #[trigger] self.pending@[j].0 == k by {
                        assert(k != i);
                        assert(pre.slots@[k] is None);
                        let j = choose|j: int| pre.cursor <= j < pre.pending@.len() && #[trigger] pre.pending@[j].0 == k;
                        assert(self.pending@[j] == pre.pending@[j]);
                    }
                },
            }
        }
        self.advance_execution()
    }

    /// The call being resolved joins the pending calls with its effective arguments.
    fn accept_arguments(&mut self, effective: Value, mutating: bool)
        requires
            old(self).wf(),
            old(self).calls_matched(),
            !old(self).resolved(),
        ensures
            final(self).wf(),
            final(self).calls_matched(),
            final(self).calls == old(self).calls,
            final(self).slots == old(self).slots,
            final(self).cursor == old(self).cursor,
            final(self).group_len == old(self).group_len,
            final(self).aborted_reason == old(self).aborted_reason,
            final(self).next_call == old(self).next_call + 1,
            final(self).pending@ == old(self).pending@.push(
                (old(self).next_call, resolved_with(old(self).calls@[old(self).next_call as int], effective, mutating)),
            ),
    {
        let i = self.next_call;
        assert(i < self.calls.len());
        let ghost pre = *self;
        let req = &self.calls[i];
        let call = ResolvedToolCall {
            call_id: req.call_id.clone(),
            tool_name: req.tool_name.clone(),
            requested_arguments: clone_json(&req.requested_arguments),
            effective_arguments: effective,
            mutating,
        };
        self.pending.push((i, call));
        self.next_call = i + 1;
        assert forall|k: int| 0 <= k < self.next_call && (#[trigger] self.slots@[k]) is None implies exists|j: int|
            self.cursor <= j < self.pending@.len() && #[trigger] self.pending@[j].0 == k by {
            if k == i {
                assert(self.pending@[self.pending@.len() - 1].0 == k);
            } else {
                assert(pre.slots@[k] is None);
                let j = choose|j: int| pre.cursor <= j < pre.pending@.len() && #[trigger] pre.pending@[j].0 == k;
                assert(self.pending@[j] == pre.pending@[j]);
            }
        }
    }

    /// The call being resolved is recorded at once: its hooks failed with `message`.
    fn record_hook_abort(&mut self, message: String, mutating: bool)
        requires
            old(self).wf(),
            old(self).calls_matched(),
            !old(self).resolved(),
        ensures
            final(self).wf(),
            final(self).calls_matched(),
            final(self).calls == old(self).calls,
            final(self).pending == old(self).pending,
            final(self).cursor == old(self).cursor,
            final(self).group_len == old(self).group_len,
            final(self).aborted_reason == old(self).aborted_reason,
            final(self).next_call == old(self).next_call + 1,
            final(self).slots@ == old(self).slots@.update(old(self).next_call as int, final(self).slots@[old(self).next_call as int]),
            final(self).slots@[old(self).next_call as int] matches Some(rec)
                && hook_abort_record(rec, old(self).calls@[old(self).next_call as int], mutating, message@),
    {
        let i = self.next_call;
        assert(i < self.calls.len());
        let ghost pre = *self;
        let req = &self.calls[i];
        let call = ResolvedToolCall {
            call_id: req.call_id.clone(),
            tool_name: req.tool_name.clone(),
            requested_arguments: clone_json(&req.requested_arguments),
            effective_arguments: clone_json(&req.requested_arguments),
            mutating,
        };
        let record = make_record(call, ToolOutput::error(message), Some("before_tool_use aborted".to_owned()));
        self.slots.set(i, Some(record));
        self.next_call = i + 1;
        assert(self.slots@ =~= pre.slots@.update(i as int, self.slots@[i as int]));
        assert forall|k: int| 0 <= k < self.next_call && (#[trigger] self.slots@[k]) is None implies exists|j: int|
            self.cursor <= j < self.pending@.len() && #[trigger] self.pending@[j].0 == k by {
            assert(k != i);
            assert(pre.slots@[k] is None);
            let j = choose|j: int| pre.cursor <= j < pre.pending@.len() && #[trigger] pre.pending@[j].0 == k;
            assert(self.pending@[j] == pre.pending@[j]);
        }
    }

    /// Takes the result of the before-tool-use hooks of the call being resolved. With its
    /// effective arguments the call joins the pending calls; an error is recorded at once
    /// as an error output with the error's message and an abort. Resolution then goes on.
    pub fn on_arguments(&mut self, result: Result<Value, AgentError>, tools: &Vec<ToolDescriptor>) -> (a: DispatchAction)
        requires
            old(self).wf(),
            old(self).calls_matched(),
            !old(self).resolved(),
        ensures
            final(self).wf(),
            final(self).calls_matched(),
            final(self).action_ok(a, tools@),
            final(self).calls == old(self).calls,
            final(self).aborted_reason == old(self).aborted_reason,
            final(self).next_call > old(self).next_call,
            ({
                let i = old(self).next_call as int;
                let req = old(self).calls@[i];
                let mutating = match tool_index(tools@, req.tool_name@) {
                    Some(t) => tools@[t].mutating,
                    None => false,
                };
                match result {
                    Ok(effective) => final(self).pending@ == old(self).pending@.push(
                        (i as usize, resolved_with(req, effective, mutating)),
                    ),
                    Err(e) => {
                        &&& final(self).pending == old(self).pending
                        &&& (final(self).slots@[i] matches Some(rec) && hook_abort_record(rec, req, mutating, e.message@))
                    },
                }
            }),
            forall|k: int| 0 <= k < old(self).next_call ==> #[trigger] final(self).slots@[k] == old(self).slots@[k],
            forall|k: int| old(self).next_call < k < final(self).next_call ==> missing_slot(#[trigger] final(self).slots@[k], final(self).calls@[k], tools@),
    {
        let mutating = match find_tool(tools, self.calls[self.next_call].tool_name.as_str()) {
            Some(k) => tools[k].mutating,
            None => false,
        };
        match result {
            Ok(effective) => self.accept_arguments(effective, mutating),
            Err(error) => self.record_hook_abort(error.message, mutating),
        }
        self.advance_resolution(tools)
    }

    /// Hands out the next group of pending calls, or the finished result when none is
    /// left.
    fn advance_execution(&mut self) -> (a: DispatchAction)
        requires
            old(self).wf(),
            old(self).calls_matched(),
            old(self).resolved(),
        ensures
            final(self).wf(),
            final(self).calls_matched(),
            final(self).exec_action_ok(a),
            final(self).calls == old(self).calls,
            final(self).slots == old(self).slots,
            final(self).pending == old(self).pending,
            final(self).next_call == old(self).next_call,
            final(self).cursor == old(self).cursor,
            final(self).aborted_reason == old(self).aborted_reason,
    {
        if self.cursor >= self.pending.len() {
            return DispatchAction::Done(self.collect_result());
        }
        let start = self.cursor;
        let mut end = start + 1;
        if !self.pending[start].1.mutating {
            while end < self.pending.len() && !self.pending[end].1.mutating
                invariant
                    start < end <= self.pending.len(),
                    forall|j: int| start <= j < end ==> !(#[trigger] self.pending@[j]).1.mutating,
                decreases self.pending.len() - end,
            {
                end += 1;
            }
            proof {
                lemma_run_end(self.pending@, start as int, end as int);
            }
        }
        let mut calls: Vec<ResolvedToolCall> = Vec::new();
        let mut k = start;
        while k < end
            invariant
                start <= k <= end <= self.pending.len(),
                calls@ == self.pending@.subrange(start as int, k as int).map_values(|p: (usize, ResolvedToolCall)| p.1),
            decreases end - k,
        {
            let ghost b = calls@;
            calls.push(self.pending[k].1.clone());
            assert(self.pending@.subrange(start as int, k + 1).map_values(|p: (usize, ResolvedToolCall)| p.1)
                =~= b.push(self.pending@[k as int].1));
            k += 1;
        }
        self.group_len = end - start;
        DispatchAction::ExecuteGroup { calls }
    }

    /// Takes the records of the executed group, in the group's order: each is the record
    /// of its call, and the first abort among them is kept unless one was kept before.
    pub fn on_group_executed(&mut self, records: Vec<ToolExecutionRecord>) -> (a: DispatchAction)
        requires
            old(self).wf(),
            old(self).calls_matched(),
            old(self).resolved(),
            old(self).cursor + old(self).group_len <= old(self).pending@.len(),
            records@.len() == old(self).group_len,
            forall|j: int| 0 <= j < records@.len() ==> (#[trigger] records@[j]).call == old(self).pending@[old(self).cursor + j].1,
        ensures
            final(self).wf(),
            final(self).calls_matched(),
            final(self).exec_action_ok(a),
            final(self).calls == old(self).calls,
            final(self).pending == old(self).pending,
            final(self).cursor == old(self).cursor + old(self).group_len,
            forall|j: int| 0 <= j < records@.len() ==> #[trigger] final(self).slots@[old(self).pending@[old(self).cursor + j].0 as int]
                == Some(records@[j]),
            crate::domain::content::opt_text(final(self).aborted_reason) == first_abort(
                crate::domain::content::opt_text(old(self).aborted_reason),
                records@,
            ),
    {
        let ghost all = records@;
        let ghost c0 = self.cursor;
        assert(all.skip(0) =~= all);
        let mut i: usize = 0;
        while i < records.len()
            invariant
                self.wf(),
                self.calls_matched(),
                self.resolved(),
                self.calls == old(self).calls,
                self.pending == old(self).pending,
                all == records@,
                forall|j: int| 0 <= j < all.len() ==> (#[trigger] all[j]).call == self.pending@[c0 + j].1,
                c0 == old(self).cursor,
                self.cursor == c0 + i,
                i <= records@.len(),
                c0 + records@.len() <= self.pending@.len(),
                forall|j: int| 0 <= j < i ==> #[trigger] self.slots@[self.pending@[c0 + j].0 as int] == Some(all[j]),
                first_abort(crate::domain::content::opt_text(old(self).aborted_reason), all) == first_abort(
                    crate::domain::content::opt_text(self.aborted_reason),
                    all.skip(i as int),
                ),
            decreases records.len() - i,
        {
            let r = records[i].clone();
            proof {
                assert(all.skip(i as int)[0] == all[i as int]);
                assert(all.skip(i as int).drop_first() =~= all.skip(i + 1));
            }
            if self.aborted_reason.is_none() {
                self.aborted_reason = clone_opt_string(&r.abort_reason);
            }
            assert(self.cursor < self.pending@.len());
            let idx = self.pending[self.cursor].0;
            let ghost before = self.slots@;
            self.slots.set(idx, Some(r));
            proof {
                assert forall|j: int| 0 <= j < i + 1 implies #[trigger] self.slots@[self.pending@[c0 + j].0 as int] == Some(all[j]) by {
                    if j < i {
                        assert(self.pending@[c0 + j].0 < self.pending@[self.cursor as int].0);
                    }
                }
                assert forall|j: int| 0 <= j < self.cursor + 1 implies (#[trigger] self.slots@[self.pending@[j].0 as int]) is Some by {
                    if j < self.cursor {
                        assert(self.pending@[j].0 < self.pending@[self.cursor as int].0);
                    }
                }
                assert forall|j: int| self.cursor + 1 <= j < self.pending@.len() implies (#[trigger] self.slots@[self.pending@[j].0 as int]) is None by {
                    assert(self.pending@[self.cursor as int].0 < self.pending@[j].0);
                }
                assert forall|k: int| self.next_call <= k < self.calls@.len() implies (#[trigger] self.slots@[k]) is None by {
                    assert(self.pending@[self.cursor as int].0 < self.next_call);
                }
                assert forall|k: int| 0 <= k < self.next_call && (#[trigger] self.slots@[k]) is None implies exists|j: int|
                    self.cursor + 1 <= j < self.pending@.len() && #[trigger] self.pending@[j].0 == k by {
                    assert(before[k] is None);
                    let j = choose|j: int| self.cursor <= j < self.pending@.len() && #[trigger] self.pending@[j].0 == k;
                    assert(j != self.cursor);
                }
            }
            assert(self.cursor < self.pending.len());
            self.cursor = self.cursor + 1;
            i += 1;
        }
        proof {
            assert(all.skip(i as int) =~= Seq::<ToolExecutionRecord>::empty());
        }
        self.advance_execution()
    }

    fn collect_result(&self) -> (r: ToolDispatchResult)
        requires
            self.wf(),
            self.resolved(),
            self.cursor == self.pending@.len(),
        ensures
            r.records@.len() == self.calls@.len(),
            forall|k: int| 0 <= k < self.calls@.len() ==> self.slots@[k] == Some(#[trigger] r.records@[k]),
            crate::domain::config::opt_view_is(r.aborted_reason, crate::domain::content::opt_text(self.aborted_reason)),
    {
        let mut records: Vec<ToolExecutionRecord> = Vec::new();
        let mut i: usize = 0;
        while i < self.slots.len()
            invariant
                self.wf(),
                self.resolved(),
                self.cursor == self.pending@.len(),
                i <= self.slots.len(),
                records@.len() == i,
                forall|k: int| 0 <= k < i ==> self.slots@[k] == Some(#[trigger] records@[k]),
            decreases self.slots.len() - i,
        {
            proof {
                if self.slots@[i as int] is None {
                    let j = choose|j: int| self.cursor <= j < self.pending@.len() && #[trigger] self.pending@[j].0 == i;
                }
            }
            if let Some(r) = &self.slots[i] {
                records.push(r.clone());
            }
            i += 1;
        }
        ToolDispatchResult { records, aborted_reason: clone_opt_string(&self.aborted_reason) }
    }
}

/// The content of the output of a call that timed out.
pub const TOOL_TIMEOUT_MESSAGE: &'static str = "tool timed out";

/// The content of the output of a call that the turn's cancellation skipped.
pub const SKIPPED_CALL_MESSAGE: &'static str = "[tool skipped: cancelled before execution]";

/// How the execution of a started call ended: the tool's output, the tool's error, or no
/// answer within the timeout.
#[derive(Debug)]
pub enum ToolRun {
    Finished(ToolOutput),
    Failed(AgentError),
    TimedOut,
}

/// The metadata of a skipped call's output.
pub open spec fn skipped_metadata() -> Value {
    json_object_value(
        Map::empty().insert("synthetic"@, json_bool_value(true)).insert("skipped"@, json_bool_value(true)).insert(
            "reason"@,
            json_string_value("cancelled_before_execution"@),
        ),
    )
}

/// The metadata of a timed-out call's output.
pub open spec fn timeout_metadata() -> Value {
    json_object_value(
        Map::empty().insert("reason"@, json_string_value("timeout"@)).insert("code"@, json_string_value("ToolTimeout"@)),
    )
}

/// Whether `o` is the output of a call that the turn's cancellation skipped.
pub open spec fn skipped_output(o: ToolOutput) -> bool {
    &&& o.content@ == SKIPPED_CALL_MESSAGE@
    &&& o.is_error
    &&& o.metadata == Some(skipped_metadata())
}

/// Whether `o` is the output of a run: the tool's output truncated, the tool's error
/// message, or the timeout message.
pub open spec fn settled(run: ToolRun, o: ToolOutput) -> bool {
    match run {
        ToolRun::Finished(out) => truncated(out, o),
        ToolRun::Failed(e) => error_output(o, e.message@),
        ToolRun::TimedOut => error_output(o, TOOL_TIMEOUT_MESSAGE@),
    }
}

/// Whether `r` is `o` as recorded: an output carrying the timeout message is marked as an
/// error with the timeout metadata, any other is kept.
pub open spec fn recorded_output(o: ToolOutput, r: ToolOutput) -> bool {
    if o.content@ == TOOL_TIMEOUT_MESSAGE@ {
        &&& r.content == o.content
        &&& r.is_error
        &&& r.metadata == Some(timeout_metadata())
    } else {
        r == o
    }
}

/// Whether `i` is what the tool of `call` is handed: the call's id and tool name, and its
/// effective arguments, those that the before-tool-use hooks left.
pub open spec fn input_of(i: ToolInput, call: ResolvedToolCall) -> bool {
    &&& i.call_id == call.call_id
    &&& i.tool_name == call.tool_name
    &&& i.arguments == call.effective_arguments
}

/// How the execution of one dispatched call begins.
#[derive(Debug)]
pub enum ExecutionStart {
    /// The turn was cancelled before the call started: this is its record, and neither the
    /// tool nor the after-tool-use hooks run.
    Skipped(ToolExecutionRecord),
    /// Run the tool once on `input`, then the after-tool-use hooks; `call` is what the
    /// record is made of.
    Run { input: ToolInput, call: ResolvedToolCall },
}

impl ToolDispatcher {
    /// The record of a call that was not started because the turn was cancelled.
    pub fn skipped_record(call: ResolvedToolCall) -> (r: ToolExecutionRecord)
        ensures
            records_call(r, call, r.result_record.output, None),
            skipped_output(r.result_record.output),
    {
        let mut m = new_json_map();
        json_map_insert(&mut m, "synthetic".to_owned(), json_bool(true));
        json_map_insert(&mut m, "skipped".to_owned(), json_bool(true));
        json_map_insert(&mut m, "reason".to_owned(), json_string("cancelled_before_execution"));
        proof {
            reveal_strlit("synthetic");
            reveal_strlit("skipped");
            reveal_strlit("reason");
            reveal_strlit("cancelled_before_execution");
        }
        assert(json_map_entries(m) =~= Map::empty().insert("synthetic"@, json_bool_value(true)).insert(
            "skipped"@,
            json_bool_value(true),
        ).insert("reason"@, json_string_value("cancelled_before_execution"@)));
        let output = ToolOutput { content: SKIPPED_CALL_MESSAGE.to_owned(), is_error: true, metadata: Some(json_object(m)) };
        make_record(call, output, None)
    }

    /// What the tool of `call` is handed.
    pub fn tool_input(call: &ResolvedToolCall) -> (i: ToolInput)
        ensures
            input_of(i, *call),
    {
        ToolInput {
            call_id: call.call_id.clone(),
            tool_name: call.tool_name.clone(),
            arguments: clone_json(&call.effective_arguments),
        }
    }

    /// The first step of executing `call`: a turn cancelled before the call started skips
    /// it; otherwise the tool runs on the call's effective arguments.
    pub fn start_execution(call: ResolvedToolCall, cancelled: bool) -> (r: ExecutionStart)
        ensures
            cancelled <==> r is Skipped,
            r matches ExecutionStart::Skipped(rec) ==> records_call(rec, call, rec.result_record.output, None)
                && skipped_output(rec.result_record.output),
            r matches ExecutionStart::Run { input, call: c } ==> c == call && input_of(input, call),
    {
        if cancelled {
            ExecutionStart::Skipped(Self::skipped_record(call))
        } else {
            let input = Self::tool_input(&call);
            ExecutionStart::Run { input, call }
        }
    }

    /// The output of a started call: the tool's output truncated to the limit, the tool's
    /// error message, or the timeout message.
    pub fn settle_output(run: ToolRun) -> (o: ToolOutput)
        requires
            run matches ToolRun::Finished(out) ==> out.can_truncate_spec(),
        ensures
            settled(run, o),
    {
        match run {
            ToolRun::Finished(out) => out.truncate(),
            ToolRun::Failed(e) => ToolOutput::error(e.message),
            ToolRun::TimedOut => ToolOutput::error(TOOL_TIMEOUT_MESSAGE.to_owned()),
        }
    }

    /// The record of a started call once its after-tool-use hooks ran: a hook failure
    /// aborts with the failure's message and keeps the output; otherwise a timeout output
    /// gets the timeout metadata.
    pub fn finish_execution(call: ResolvedToolCall, output: ToolOutput, after_hook: Result<(), AgentError>) -> (r: ToolExecutionRecord)
        ensures
            match after_hook {
                Err(e) => records_call(r, call, output, Some(e.message@)),
                Ok(()) => records_call(r, call, r.result_record.output, None) && recorded_output(
                    output,
                    r.result_record.output,
                ),
            },
    {
        match after_hook {
            Err(e) => make_record(call, output, Some(e.message)),
            Ok(()) => {
                let recorded = if str_eq(output.content.as_str(), TOOL_TIMEOUT_MESSAGE) {
                    let mut m = new_json_map();
                    json_map_insert(&mut m, "reason".to_owned(), json_string("timeout"));
                    json_map_insert(&mut m, "code".to_owned(), json_string("ToolTimeout"));
                    proof {
                        reveal_strlit("reason");
                        reveal_strlit("timeout");
                        reveal_strlit("code");
                        reveal_strlit("ToolTimeout");
                    }
                    assert(json_map_entries(m) =~= Map::empty().insert("reason"@, json_string_value("timeout"@)).insert(
                        "code"@,
                        json_string_value("ToolTimeout"@),
                    ));
                    ToolOutput { content: output.content, is_error: true, metadata: Some(json_object(m)) }
                } else {
                    output
                };
                make_record(call, recorded, None)
            },
        }
    }
}

/// A finished dispatch gives every call of the batch one record, its own, in the model's
/// order, and keeps the first abort among the executed calls.
pub proof fn lemma_records_follow_calls(d: ToolDispatcher, a: DispatchAction)
    requires
        d.wf(),
        d.calls_matched(),
        d.resolved(),
        d.exec_action_ok(a),
        a is Done,
    ensures
        a->Done_0.records@.len() == d.calls@.len(),
        forall|k: int| 0 <= k < d.calls@.len() ==> same_call((#[trigger] a->Done_0.records@[k]).call, d.calls@[k]),
        crate::domain::config::opt_view_is(a->Done_0.aborted_reason, crate::domain::content::opt_text(d.aborted_reason)),
{
    let result = a->Done_0;
    assert forall|k: int| 0 <= k < d.calls@.len() implies same_call((#[trigger] result.records@[k]).call, d.calls@[k]) by {
        assert(d.slots@[k] == Some(result.records@[k]));
    }
}

proof fn lemma_read_only_run(pending: Seq<(usize, ResolvedToolCall)>, start: int)
    requires
        0 <= start <= pending.len(),
    ensures
        start <= read_only_run_end(pending, start) <= pending.len(),
        forall|j: int| start <= j < read_only_run_end(pending, start) ==> !(#[trigger] pending[j]).1.mutating,
    decreases pending.len() - start,
{
    if start < pending.len() && !pending[start].1.mutating {
        lemma_read_only_run(pending, start + 1);
    }
}

/// Mutating calls run alone and calls that do not mutate run together: a group to execute
/// is one mutating call, or calls none of which mutates.
pub proof fn lemma_groups_respect_mutation(d: ToolDispatcher, a: DispatchAction)
    requires
        d.wf(),
        d.resolved(),
        d.exec_action_ok(a),
        a is ExecuteGroup,
    ensures
        a->calls@.len() >= 1,
        a->calls@[0].mutating ==> a->calls@.len() == 1,
        !a->calls@[0].mutating ==> forall|i: int| 0 <= i < a->calls@.len() ==> !(#[trigger] a->calls@[i]).mutating,
{
    let start = d.cursor as int;
    let calls = a->calls@;
    let end = group_end(d.pending@, start);
    assert(start < d.pending@.len());
    if !d.pending@[start].1.mutating {
        lemma_read_only_run(d.pending@, start + 1);
        lemma_read_only_run(d.pending@, start);
        assert(end == read_only_run_end(d.pending@, start + 1));
    }
    assert(end > start);
    assert(d.group_len == end - start);
    assert(calls.len() == end - start);
    assert(calls[0] == d.pending@[start].1);
    if !d.pending@[start].1.mutating {
        assert forall|i: int| 0 <= i < calls.len() implies !(#[trigger] calls[i]).mutating by {
            assert(calls[i] == d.pending@[start + i].1);
        }
    }
}

} // verus!
