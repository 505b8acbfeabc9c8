use serde_json::Value;
use stateless_codex::application::tool_dispatcher::{
    make_record, DispatchAction, ExecutionStart, ToolDispatcher, ToolRun, SKIPPED_CALL_MESSAGE, TOOL_TIMEOUT_MESSAGE,
};
use stateless_codex::domain::hook::AfterToolUsePayload;
use stateless_codex::domain::tool::{
    RequestedToolBatch, RequestedToolCall, ResolvedToolCall, MAX_TOOL_OUTPUT_BYTES, TOOL_OUTPUT_TRUNCATION_SUFFIX,
};
use stateless_codex::{AgentError, AgentErrorCode, ToolDescriptor, ToolOutput};

fn tool(name: &str, mutating: bool) -> ToolDescriptor {
    ToolDescriptor { name: name.to_string(), description: String::new(), parameters_schema: Value::Null, mutating }
}

fn request(id: &str, name: &str) -> RequestedToolCall {
    RequestedToolCall { call_id: id.to_string(), tool_name: name.to_string(), requested_arguments: Value::String(id.to_string()) }
}

fn output(text: &str) -> ToolOutput {
    ToolOutput { content: text.to_string(), is_error: false, metadata: None }
}

fn resolved(id: &str) -> ResolvedToolCall {
    ResolvedToolCall {
        call_id: id.to_string(),
        tool_name: "t".to_string(),
        requested_arguments: Value::Null,
        effective_arguments: Value::Null,
        mutating: false,
    }
}

#[test]
fn read_only_calls_run_together_and_mutating_calls_alone() {
    let tools = vec![tool("read", false), tool("write", true)];
    let batch = RequestedToolBatch {
        calls: vec![request("1", "read"), request("2", "read"), request("3", "write"), request("4", "ghost"), request("5", "read")],
    };
    let (mut d, mut action) = ToolDispatcher::start(batch, &tools);
    let mut hooks = Vec::new();
    loop {
        match action {
            DispatchAction::RunBeforeToolUse { index, call } => {
                hooks.push(index);
                let args = call.requested_arguments.clone();
                action = d.on_arguments(Ok(args), &tools);
            },
            _ => break,
        }
    }
    assert_eq!(hooks, vec![0, 1, 2, 4]);
    let mut groups = Vec::new();
    loop {
        match action {
            DispatchAction::ExecuteGroup { calls } => {
                groups.push(calls.iter().map(|c| c.call_id.clone()).collect::<Vec<_>>());
                let records = calls
                    .into_iter()
                    .map(|c| {
                        let id = c.call_id.clone();
                        make_record(c, output(&id), None)
                    })
                    .collect();
                action = d.on_group_executed(records);
            },
            _ => break,
        }
    }
    assert_eq!(groups, vec![vec!["1".to_string(), "2".to_string()], vec!["3".to_string()], vec!["5".to_string()]]);
    let result = match action {
        DispatchAction::Done(result) => result,
        other => panic!("unexpected action {other:?}"),
    };
    let ids: Vec<&str> = result.records.iter().map(|r| r.call.call_id.as_str()).collect();
    assert_eq!(ids, vec!["1", "2", "3", "4", "5"]);
    assert_eq!(result.records[3].abort_reason, Some("tool not found".to_string()));
    assert_eq!(result.records[3].result_record.output.content, "tool `ghost` is not registered");
    assert_eq!(result.aborted_reason, None);
}

#[test]
fn hook_failure_records_an_error_without_running_the_tool() {
    let tools = vec![tool("write", true)];
    let (mut d, action) = ToolDispatcher::start(RequestedToolBatch { calls: vec![request("1", "write")] }, &tools);
    assert!(matches!(action, DispatchAction::RunBeforeToolUse { index: 0, .. }));
    let action = d.on_arguments(Err(AgentError::new(AgentErrorCode::HookAborted, "denied".to_string())), &tools);
    let result = match action {
        DispatchAction::Done(result) => result,
        other => panic!("unexpected action {other:?}"),
    };
    let record = &result.records[0];
    assert_eq!(record.abort_reason, Some("before_tool_use aborted".to_string()));
    assert_eq!(record.result_record.output.content, "denied");
    assert!(record.result_record.output.is_error);
    assert!(record.call.mutating);
    assert_eq!(record.call_record.effective_arguments, Value::String("1".to_string()));
}

#[test]
fn executed_aborts_are_kept_first_come() {
    let tools = vec![tool("read", false)];
    let (mut d, action) =
        ToolDispatcher::start(RequestedToolBatch { calls: vec![request("1", "read"), request("2", "read")] }, &tools);
    assert!(matches!(action, DispatchAction::RunBeforeToolUse { .. }));
    let _ = d.on_arguments(Ok(Value::Null), &tools);
    let action = d.on_arguments(Ok(Value::Null), &tools);
    let calls = match action {
        DispatchAction::ExecuteGroup { calls } => calls,
        other => panic!("unexpected action {other:?}"),
    };
    let first = ToolDispatcher::finish_execution(
        calls[0].clone(),
        output("a"),
        Err(AgentError::new(AgentErrorCode::HookAborted, "first stop".to_string())),
    );
    let second = ToolDispatcher::finish_execution(
        calls[1].clone(),
        output("b"),
        Err(AgentError::new(AgentErrorCode::HookAborted, "second stop".to_string())),
    );
    let result = match d.on_group_executed(vec![first, second]) {
        DispatchAction::Done(result) => result,
        other => panic!("unexpected action {other:?}"),
    };
    assert_eq!(result.aborted_reason, Some("first stop".to_string()));
}

#[test]
fn outputs_are_settled() {
    let o = ToolDispatcher::settle_output(ToolRun::Failed(AgentError::new(AgentErrorCode::ToolExecutionError, "bad".to_string())));
    assert_eq!(o, ToolOutput { content: "bad".to_string(), is_error: true, metadata: None });
    let o = ToolDispatcher::settle_output(ToolRun::TimedOut);
    assert_eq!(o.content, TOOL_TIMEOUT_MESSAGE);
    assert!(o.is_error);
    let o = ToolDispatcher::settle_output(ToolRun::Finished(output("fine")));
    assert_eq!(o, output("fine"));
}

#[test]
fn long_outputs_are_truncated_to_the_limit() {
    let long = ToolOutput { content: "é".repeat(MAX_TOOL_OUTPUT_BYTES), is_error: false, metadata: None };
    assert!(long.can_truncate());
    let cut = long.truncate();
    assert!(cut.content.len() <= MAX_TOOL_OUTPUT_BYTES);
    assert!(cut.content.ends_with(TOOL_OUTPUT_TRUNCATION_SUFFIX));
    assert_eq!(cut.content.len(), MAX_TOOL_OUTPUT_BYTES);
    let misaligned = ToolOutput { content: format!("a{}", "é".repeat(MAX_TOOL_OUTPUT_BYTES)), is_error: false, metadata: None };
    assert!(!misaligned.can_truncate());
    let short = output("short");
    assert_eq!(short.clone().truncate(), short);
}

#[test]
fn timeouts_and_skips_carry_metadata() {
    let record = ToolDispatcher::finish_execution(resolved("1"), ToolDispatcher::settle_output(ToolRun::TimedOut), Ok(()));
    let mut expected = serde_json::Map::new();
    expected.insert("reason".to_string(), Value::String("timeout".to_string()));
    expected.insert("code".to_string(), Value::String("ToolTimeout".to_string()));
    assert_eq!(record.result_record.output.metadata, Some(Value::Object(expected)));
    assert!(record.result_record.output.is_error);
    assert_eq!(record.abort_reason, None);

    let skipped = ToolDispatcher::skipped_record(resolved("2"));
    assert_eq!(skipped.result_record.output.content, SKIPPED_CALL_MESSAGE);
    let mut expected = serde_json::Map::new();
    expected.insert("synthetic".to_string(), Value::Bool(true));
    expected.insert("skipped".to_string(), Value::Bool(true));
    expected.insert("reason".to_string(), Value::String("cancelled_before_execution".to_string()));
    assert_eq!(skipped.result_record.output.metadata, Some(Value::Object(expected)));
    assert_eq!(skipped.call_record.call_id, "2");

    let kept = ToolDispatcher::finish_execution(resolved("3"), output("ok"), Ok(()));
    assert_eq!(kept.result_record.output, output("ok"));
}

fn patched_call() -> ResolvedToolCall {
    ResolvedToolCall {
        call_id: "call-1".to_string(),
        tool_name: "echo".to_string(),
        requested_arguments: Value::String("raw".to_string()),
        effective_arguments: Value::String("patched".to_string()),
        mutating: false,
    }
}

#[test]
fn a_started_call_hands_the_tool_its_effective_arguments() {
    match ToolDispatcher::start_execution(patched_call(), false) {
        ExecutionStart::Run { input, call } => {
            assert_eq!(input.call_id, "call-1");
            assert_eq!(input.tool_name, "echo");
            assert_eq!(input.arguments, Value::String("patched".to_string()));
            assert_eq!(call, patched_call());
        },
        ExecutionStart::Skipped(_) => panic!("a call of a running turn is started"),
    }
    assert_eq!(ToolDispatcher::tool_input(&patched_call()).arguments, Value::String("patched".to_string()));
}

#[test]
fn a_cancelled_turn_skips_the_call_before_the_tool_runs() {
    match ToolDispatcher::start_execution(patched_call(), true) {
        ExecutionStart::Skipped(record) => {
            assert_eq!(record.result_record.output.content, SKIPPED_CALL_MESSAGE);
            assert!(record.result_record.output.is_error);
            let metadata = record.result_record.output.metadata.expect("skip metadata");
            assert_eq!(metadata["reason"], Value::String("cancelled_before_execution".to_string()));
            assert_eq!(metadata["synthetic"], Value::Bool(true));
            assert_eq!(metadata["skipped"], Value::Bool(true));
            assert_eq!(record.abort_reason, None);
            assert_eq!(record.call_record.requested_arguments, Value::String("raw".to_string()));
            assert_eq!(record.call_record.effective_arguments, Value::String("patched".to_string()));
        },
        ExecutionStart::Run { .. } => panic!("a cancelled turn runs no tool"),
    }
}

#[test]
fn after_tool_use_payload_succeeds_exactly_when_the_output_is_no_error() {
    let ok = AfterToolUsePayload::new("s1", "t1", "echo", &output("fine"), 7, Value::Null);
    assert!(ok.success);
    assert_eq!(ok.tool_name, "echo");
    assert_eq!(ok.duration_ms, 7);
    let failed = ToolOutput::error("boom".to_string());
    let err = AfterToolUsePayload::new("s1", "t1", "echo", &failed, 7, Value::Null);
    assert!(!err.success);
    assert_eq!(err.output, failed);
}
