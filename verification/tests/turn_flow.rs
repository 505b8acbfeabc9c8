use serde_json::Value;
use stateless_codex::application::tool_dispatcher::{
    DispatchAction, ExecutionStart, ToolDispatchResult, ToolDispatcher, ToolRun,
};
use stateless_codex::application::turn_engine::{TurnAction, TurnEngine, TurnEnvironment, TurnMachine, TurnPhase, TurnStep};
use stateless_codex::domain::config::{resolve_session_pinned_config, resolve_session_runtime_policy};
use stateless_codex::domain::memory::SessionMemoryState;
use stateless_codex::domain::model::{ProviderErrorKind, Usage};
use stateless_codex::domain::session::{ContextState, VisibleMessage};
use stateless_codex::domain::tool::RequestedToolBatch;
use stateless_codex::{
    AgentConfig, AgentError, AgentErrorCode, AgentEvent, ChatEvent, ContentBlock, FinishReason, Message, MessageStatus,
    ModelInfo, ProviderCapability, ProviderError, ResolvedSessionConfig, SessionConfig, SessionEventPayload,
    SkillDefinition, ToolDescriptor, ToolOutput, TurnOutcome,
};

/// The arguments object `{"value": text}`.
fn value_arg(text: &str) -> Value {
    let mut map = serde_json::Map::new();
    map.insert("value".to_string(), Value::String(text.to_string()));
    Value::Object(map)
}

fn config() -> AgentConfig {
    AgentConfig {
        default_model: "gpt-test".to_string(),
        memory_namespace: "workspace".to_string(),
        max_tool_calls_per_turn: 1,
        ..AgentConfig::default()
    }
}

fn env_with(skills: Vec<SkillDefinition>) -> TurnEnvironment {
    let agent_config = config();
    let pinned = resolve_session_pinned_config(&agent_config, SessionConfig::default()).expect("pinned config");
    let runtime_policy = resolve_session_runtime_policy(&agent_config, &pinned);
    TurnEnvironment {
        agent_config,
        resolved_config: ResolvedSessionConfig { pinned, runtime_policy },
        skills,
        plugins: Vec::new(),
        tools: vec![ToolDescriptor {
            name: "echo".to_string(),
            description: "echo the value".to_string(),
            parameters_schema: Value::Null,
            mutating: false,
        }],
        model_info: ModelInfo {
            model_id: "gpt-test".to_string(),
            display_name: "Test".to_string(),
            context_window: 32_000,
            capabilities: vec![ProviderCapability::ToolUse],
        },
    }
}

fn usage() -> Usage {
    Usage { input_tokens: 1, output_tokens: 1, reasoning_tokens: None, total_tokens: 2 }
}

fn context_with_user(seq: u64, text: &str) -> ContextState {
    ContextState {
        latest_compaction: None,
        visible_messages: vec![VisibleMessage {
            source_seq: Some(seq),
            message: Message::user(vec![ContentBlock::text(text)]),
        }],
        history_estimated_tokens: 0,
    }
}

fn no_memories() -> SessionMemoryState {
    SessionMemoryState { bootstrap_memories: Vec::new(), last_turn_memories: Vec::new() }
}

fn sequences(step: &TurnStep) -> Vec<u64> {
    step.emits.iter().map(|e| e.sequence).collect()
}

/// Runs a fresh turn up to the first request.
fn turn_until_request(text: &str, env: &TurnEnvironment) -> (TurnMachine, TurnStep) {
    let (mut m, step) = TurnEngine::start(1, vec![ContentBlock::text(text)]);
    assert_eq!(step.emits.len(), 1);
    let step = m.on_user_appended(Ok(2), env);
    assert!(matches!(step.action, TurnAction::RunTurnStartHooks));
    let step = m.on_turn_start_hooks(Ok(Vec::new()), env);
    assert!(matches!(step.action, TurnAction::SearchMemories { .. }));
    let _ = m.on_memories(Ok(Vec::new()));
    let _ = m.on_memories_stored();
    let step = m.on_request_inputs(context_with_user(2, text), no_memories(), env);
    (m, step)
}

#[test]
fn tool_call_arguments_use_effective_arguments_and_events_are_sequenced() {
    let env = env_with(Vec::new());
    let (mut m, step) = TurnEngine::start(1, vec![ContentBlock::text("run the tool")]);
    assert_eq!(m.turn_id, "turn-1");
    assert_eq!(sequences(&step), vec![1]);
    assert_eq!(step.emits[0].event, AgentEvent::TurnStarted { turn_id: "turn-1".to_string() });
    match &step.action {
        TurnAction::AppendEvent(SessionEventPayload::UserMessage { content }) => {
            assert_eq!(content, &vec![ContentBlock::text("run the tool")]);
        },
        other => panic!("unexpected action {other:?}"),
    }

    let step = m.on_user_appended(Ok(2), &env);
    assert!(matches!(step.action, TurnAction::RunTurnStartHooks));
    let step = m.on_turn_start_hooks(Ok(vec!["dynamic".to_string()]), &env);
    match &step.action {
        TurnAction::SearchMemories { query, limit } => {
            assert_eq!(query, "run the tool");
            assert_eq!(*limit, 20);
        },
        other => panic!("unexpected action {other:?}"),
    }
    let step = m.on_memories(Ok(Vec::new()));
    assert!(matches!(step.action, TurnAction::SetTurnMemories(ref ms) if ms.is_empty()));
    let step = m.on_memories_stored();
    assert!(matches!(step.action, TurnAction::FetchRequestInputs));

    let step = m.on_request_inputs(context_with_user(2, "run the tool"), no_memories(), &env);
    let request = match step.action {
        TurnAction::Chat(request) => request,
        other => panic!("unexpected action {other:?}"),
    };
    assert_eq!(request.model_id, "gpt-test");
    assert_eq!(request.messages.len(), 1);
    assert_eq!(request.tools.len(), 1);
    assert!(request.system_prompt.contains("dynamic"));

    let step = m.on_chat_opened(Ok(()));
    assert!(matches!(step.action, TurnAction::NextChatItem));
    let step = m.on_chat_item(
        Ok(ChatEvent::ToolCall {
            call_id: "call-1".to_string(),
            tool_name: "echo".to_string(),
            arguments: value_arg("raw"),
        }),
        false,
    );
    assert!(step.emits.is_empty());
    let step = m.on_chat_item(Ok(ChatEvent::Done { finish_reason: FinishReason::ToolCalls, usage: usage() }), false);
    let batch = match step.action {
        TurnAction::Dispatch(batch) => batch,
        other => panic!("unexpected action {other:?}"),
    };
    assert_eq!(batch.calls.len(), 1);
    assert_eq!(m.total_tool_calls, 1);

    let (mut d, action) = ToolDispatcher::start(batch, &env.tools);
    match action {
        DispatchAction::RunBeforeToolUse { index, call } => {
            assert_eq!(index, 0);
            assert_eq!(call.requested_arguments, value_arg("raw"));
        },
        other => panic!("unexpected action {other:?}"),
    }
    let action = d.on_arguments(Ok(value_arg("patched")), &env.tools);
    let calls = match action {
        DispatchAction::ExecuteGroup { calls } => calls,
        other => panic!("unexpected action {other:?}"),
    };
    assert_eq!(calls.len(), 1);
    assert_eq!(calls[0].effective_arguments, value_arg("patched"));
    // The echo tool receives what the execution start hands it, and echoes it.
    let mut received = Vec::new();
    let mut records = Vec::new();
    for call in calls {
        match ToolDispatcher::start_execution(call, false) {
            ExecutionStart::Run { input, call } => {
                received.push(input.arguments.clone());
                let text = input.arguments["value"].as_str().expect("a string value").to_string();
                let output =
                    ToolDispatcher::settle_output(ToolRun::Finished(ToolOutput { content: text, is_error: false, metadata: None }));
                records.push(ToolDispatcher::finish_execution(call, output, Ok(())));
            },
            ExecutionStart::Skipped(_) => panic!("the turn is not cancelled"),
        }
    }
    assert_eq!(received, vec![value_arg("patched")]);
    let result = match d.on_group_executed(records) {
        DispatchAction::Done(result) => result,
        other => panic!("unexpected action {other:?}"),
    };

    let step = m.on_dispatched(result, &env);
    assert_eq!(sequences(&step), vec![2]);
    assert_eq!(
        step.emits[0].event,
        AgentEvent::ToolCallStart {
            call_id: "call-1".to_string(),
            tool_name: "echo".to_string(),
            arguments: value_arg("patched"),
        }
    );
    match &step.action {
        TurnAction::AppendEvent(SessionEventPayload::ToolCall { call }) => {
            assert_eq!(call.requested_arguments, value_arg("raw"));
            assert_eq!(call.effective_arguments, value_arg("patched"));
        },
        other => panic!("unexpected action {other:?}"),
    }
    let step = m.on_call_appended(Ok(3));
    assert!(matches!(step.action, TurnAction::AppendEvent(SessionEventPayload::ToolResult { .. })));
    let step = m.on_result_appended(Ok(4), &env);
    assert_eq!(sequences(&step), vec![3]);
    assert!(matches!(step.action, TurnAction::FetchRequestInputs));
    // The limit of one call per turn is reached: the next request offers no tools.
    assert!(!m.allow_tools);

    let mut context = context_with_user(2, "run the tool");
    context.visible_messages.push(VisibleMessage {
        source_seq: Some(4),
        message: Message::tool("call-1", vec![ContentBlock::text("patched")]),
    });
    let step = m.on_request_inputs(context, no_memories(), &env);
    let request = match step.action {
        TurnAction::Chat(request) => request,
        other => panic!("unexpected action {other:?}"),
    };
    assert!(request.tools.is_empty());
    assert_eq!(request.messages.len(), 2);
    let _ = m.on_chat_opened(Ok(()));
    let step = m.on_chat_item(Ok(ChatEvent::TextDelta { text: "done".to_string() }), false);
    assert_eq!(sequences(&step), vec![4]);
    let step = m.on_chat_item(Ok(ChatEvent::Done { finish_reason: FinishReason::Stop, usage: usage() }), false);
    match &step.action {
        TurnAction::AppendEvent(SessionEventPayload::AssistantMessage { content, status }) => {
            assert_eq!(content, &vec![ContentBlock::text("done")]);
            assert_eq!(*status, MessageStatus::Complete);
        },
        other => panic!("unexpected action {other:?}"),
    }
    let step = m.on_assistant_appended(Ok(6));
    match &step.action {
        TurnAction::RunTurnEndHooks { assistant_output, tool_calls_count, cancelled } => {
            assert_eq!(assistant_output, "done");
            assert_eq!(*tool_calls_count, 1);
            assert!(!*cancelled);
        },
        other => panic!("unexpected action {other:?}"),
    }
    let step = m.on_turn_end_done();
    assert_eq!(sequences(&step), vec![5]);
    assert_eq!(step.emits[0].event, AgentEvent::TurnFinished { outcome: TurnOutcome::Completed });
    assert!(matches!(step.action, TurnAction::Finish(TurnOutcome::Completed)));
    assert_eq!(m.phase, TurnPhase::Done);
}

#[test]
fn validate_input_rejects_empty_and_blank_images() {
    let error = TurnEngine::validate_input(&[]).unwrap_err();
    assert_eq!(error.code, AgentErrorCode::InvalidInput);
    assert_eq!(error.message, "turn input must contain at least one content block");
    let error = TurnEngine::validate_input(&[ContentBlock::Image {
        mime_type: " ".to_string(),
        data_base64: "abcd".to_string(),
    }])
    .unwrap_err();
    assert_eq!(error.message, "image blocks require mime_type and data_base64");
    assert!(TurnEngine::validate_input(&[ContentBlock::text("hi")]).is_ok());
}

#[test]
fn unknown_skill_fails_the_turn() {
    let env = env_with(Vec::new());
    let (mut m, _) = TurnEngine::start(3, vec![ContentBlock::text("/deploy now")]);
    let step = m.on_user_appended(Ok(1), &env);
    match step.action {
        TurnAction::Finish(TurnOutcome::Failed(e)) => {
            assert_eq!(e.code, AgentErrorCode::SkillNotFound);
            assert_eq!(e.message, "skill `deploy` is not registered");
        },
        other => panic!("unexpected action {other:?}"),
    }
}

#[test]
fn invoked_skills_are_recorded_and_injected() {
    let skill = SkillDefinition {
        name: "commit".to_string(),
        display_name: "Commit".to_string(),
        description: "create a commit".to_string(),
        prompt: "make a commit".to_string(),
        tool_dependencies: Vec::new(),
        allow_implicit_invocation: true,
    };
    let env = env_with(vec![skill]);
    let (mut m, _) = TurnEngine::start(1, vec![ContentBlock::text("/commit please /commit")]);
    let step = m.on_user_appended(Ok(7), &env);
    match &step.action {
        TurnAction::RecordSkillInvocations(names) => assert_eq!(names, &vec!["commit".to_string()]),
        other => panic!("unexpected action {other:?}"),
    }
    assert_eq!(m.augmentation.origin_user_seq, 7);
    assert_eq!(m.augmentation.skill_injections.len(), 1);
    assert_eq!(m.augmentation.skill_injections[0].rendered_xml, "<skill name=\"commit\">\nmake a commit\n</skill>");
    let step = m.on_skills_recorded();
    assert!(matches!(step.action, TurnAction::RunTurnStartHooks));

    // The steps up to the first request keep the injections, the sections and the tools.
    let step = m.on_turn_start_hooks(Ok(vec!["dynamic section".to_string()]), &env);
    assert!(matches!(step.action, TurnAction::SearchMemories { .. }));
    let _ = m.on_memories(Ok(Vec::new()));
    let _ = m.on_memories_stored();
    assert_eq!(m.augmentation.skill_injections.len(), 1);
    assert_eq!(m.dynamic_sections, vec!["dynamic section".to_string()]);
    assert!(m.allow_tools);
    assert_eq!(m.total_tool_calls, 0);
    let step = m.on_request_inputs(context_with_user(7, "/commit please /commit"), no_memories(), &env);
    let request = match step.action {
        TurnAction::Chat(request) => request,
        other => panic!("unexpected action {other:?}"),
    };
    assert_eq!(request.messages.len(), 2);
    assert_eq!(request.messages[1].content, vec![ContentBlock::text("<skill name=\"commit\">\nmake a commit\n</skill>")]);
    assert_eq!(request.tools.len(), 1);
    assert!(request.system_prompt.contains("dynamic section"));
}

#[test]
fn cancelled_stream_records_incomplete_text() {
    let env = env_with(Vec::new());
    let (mut m, step) = turn_until_request("hello", &env);
    assert!(matches!(step.action, TurnAction::Chat(_)));
    let _ = m.on_chat_opened(Ok(()));
    let _ = m.on_chat_item(Ok(ChatEvent::TextDelta { text: "partial".to_string() }), false);
    let transport = ProviderError { kind: ProviderErrorKind::Transport, message: "stream closed".to_string(), retryable: true };
    let step = m.on_chat_item(Err(transport), true);
    match &step.action {
        TurnAction::AppendEvent(SessionEventPayload::AssistantMessage { content, status }) => {
            assert_eq!(content, &vec![ContentBlock::text("partial")]);
            assert_eq!(*status, MessageStatus::Incomplete);
        },
        other => panic!("unexpected action {other:?}"),
    }
    let step = m.on_assistant_appended(Ok(3));
    assert!(matches!(step.action, TurnAction::RunTurnEndHooks { cancelled: true, .. }));
    let step = m.on_turn_end_done();
    assert_eq!(step.emits[0].event, AgentEvent::TurnFinished { outcome: TurnOutcome::Cancelled });
}

#[test]
fn provider_errors_fail_the_turn() {
    let env = env_with(Vec::new());
    let (mut m, _) = turn_until_request("hello", &env);
    let unsupported = ProviderError {
        kind: ProviderErrorKind::UnsupportedCapability { capability: ProviderCapability::Vision },
        message: "no vision".to_string(),
        retryable: false,
    };
    let step = m.on_chat_opened(Err(unsupported));
    match step.action {
        TurnAction::Finish(TurnOutcome::Failed(e)) => {
            assert_eq!(e.code, AgentErrorCode::ModelNotSupported);
            assert_eq!(e.message, "no vision");
        },
        other => panic!("unexpected action {other:?}"),
    }

    let (mut m, _) = turn_until_request("hello", &env);
    let _ = m.on_chat_opened(Ok(()));
    let failure = ProviderError { kind: ProviderErrorKind::Provider, message: "boom".to_string(), retryable: true };
    let step = m.on_chat_item(Err(failure), false);
    match step.action {
        TurnAction::Finish(TurnOutcome::Failed(e)) => {
            assert_eq!(e.code, AgentErrorCode::ProviderError);
            assert!(e.retryable);
        },
        other => panic!("unexpected action {other:?}"),
    }
}

#[test]
fn tool_calls_finish_without_calls_fails() {
    let env = env_with(Vec::new());
    let (mut m, _) = turn_until_request("hello", &env);
    let _ = m.on_chat_opened(Ok(()));
    let step = m.on_chat_item(Ok(ChatEvent::Done { finish_reason: FinishReason::ToolCalls, usage: usage() }), false);
    match step.action {
        TurnAction::Finish(TurnOutcome::Failed(e)) => {
            assert_eq!(e.code, AgentErrorCode::ProviderError);
            assert_eq!(e.message, "provider returned ToolCalls finish reason without tool calls");
        },
        other => panic!("unexpected action {other:?}"),
    }
}

#[test]
fn stream_ending_without_finish_reason_fails() {
    let env = env_with(Vec::new());
    let (mut m, _) = turn_until_request("hello", &env);
    let _ = m.on_chat_opened(Ok(()));
    let step = m.on_chat_ended();
    match step.action {
        TurnAction::Finish(TurnOutcome::Failed(e)) => assert_eq!(e.message, "provider finished with error"),
        other => panic!("unexpected action {other:?}"),
    }
}

#[test]
fn lost_anchor_fails_the_request() {
    let env = env_with(Vec::new());
    let (mut m, _) = TurnEngine::start(1, vec![ContentBlock::text("hello")]);
    let _ = m.on_user_appended(Ok(2), &env);
    let _ = m.on_turn_start_hooks(Ok(Vec::new()), &env);
    let _ = m.on_memories(Ok(Vec::new()));
    let _ = m.on_memories_stored();
    let step = m.on_request_inputs(context_with_user(9, "other"), no_memories(), &env);
    match step.action {
        TurnAction::Finish(TurnOutcome::Failed(e)) => {
            assert_eq!(e.code, AgentErrorCode::InvalidInput);
            assert_eq!(e.message, "turn anchor message is no longer visible in the projected context");
        },
        other => panic!("unexpected action {other:?}"),
    }
}

#[test]
fn aborted_dispatch_fails_after_its_records() {
    let env = env_with(Vec::new());
    let (mut m, _) = turn_until_request("hello", &env);
    let _ = m.on_chat_opened(Ok(()));
    let _ = m.on_chat_item(
        Ok(ChatEvent::ToolCall { call_id: "c".to_string(), tool_name: "missing".to_string(), arguments: Value::Null }),
        false,
    );
    let step = m.on_chat_item(Ok(ChatEvent::Done { finish_reason: FinishReason::ToolCalls, usage: usage() }), false);
    let batch = match step.action {
        TurnAction::Dispatch(batch) => batch,
        other => panic!("unexpected action {other:?}"),
    };
    let (_, action) = ToolDispatcher::start(RequestedToolBatch { calls: batch.calls }, &env.tools);
    let result: ToolDispatchResult = match action {
        DispatchAction::Done(result) => result,
        other => panic!("unexpected action {other:?}"),
    };
    assert_eq!(result.records.len(), 1);
    assert_eq!(result.records[0].result_record.output.content, "tool `missing` is not registered");
    let step = m.on_dispatched(result, &env);
    assert_eq!(step.emits.len(), 1);
    let _ = m.on_call_appended(Ok(3));
    let step = m.on_result_appended(Ok(4), &env);
    assert_eq!(step.emits.len(), 1);
    match step.action {
        TurnAction::Finish(TurnOutcome::Failed(e)) => {
            assert_eq!(e.code, AgentErrorCode::HookAborted);
            assert_eq!(e.message, "tool not found");
        },
        other => panic!("unexpected action {other:?}"),
    }
    let _: Option<AgentError> = None;
}
