use serde_json::Value;
use stateless_codex::application::context_manager::{ContextManager, COMPACTION_SUMMARY_PREFIX, INTERRUPTED_MESSAGE_NOTICE};
use stateless_codex::application::session_service::{
    missing_profile_error, normalize_text_title, project_summary_at, project_title, session_profile_index,
    AgentControlState, LifecycleState, SessionRuntimeState, SessionSlotState,
};
use stateless_codex::domain::ledger::{skill_invocations_value, LedgerEvent, SESSION_PROFILE_KEY};
use stateless_codex::domain::session::{CompactionMode, CompactionRecord};
use stateless_codex::{AgentErrorCode, ContentBlock, MessageStatus, SessionEventPayload, SessionLedger};

fn user(text: &str) -> SessionEventPayload {
    SessionEventPayload::UserMessage { content: vec![ContentBlock::text(text)] }
}

#[test]
fn reserve_then_rollback_frees_the_slot() {
    let mut control: AgentControlState<u32> = AgentControlState::new();
    let id = control.reserve_slot_with("s1".to_string(), "r1".to_string()).unwrap();
    assert_eq!(id, "r1");
    assert_eq!(control.active_session_id(), Some("s1".to_string()));
    let error = control.reserve_slot_with("s2".to_string(), "r2".to_string()).unwrap_err();
    assert_eq!(error.code, AgentErrorCode::SessionBusy);
    assert_eq!(error.message, "another session is already active");
    control.rollback_slot("other");
    assert_eq!(control.active_session_id(), Some("s1".to_string()));
    control.rollback_slot("r1");
    assert!(matches!(control.slot, SessionSlotState::Empty));
}

#[test]
fn commit_activates_and_release_empties() {
    let mut control: AgentControlState<u32> = AgentControlState::new();
    let id = control.reserve_slot("s1".to_string()).unwrap();
    let error = control.commit_slot("stale", 7).unwrap_err();
    assert_eq!(error.message, "session slot reservation was lost");
    assert!(control.commit_slot(&id, 7).is_ok());
    assert_eq!(control.active_runtime(), Some(&7));
    control.rollback_slot(&id);
    assert_eq!(control.active_runtime(), Some(&7));
    control.release_session("other");
    assert_eq!(control.active_runtime(), Some(&7));
    control.release_session("s1");
    assert!(matches!(control.slot, SessionSlotState::Empty));
}

#[test]
fn shutdown_refuses_reservations() {
    let mut control: AgentControlState<u32> = AgentControlState::new();
    control.begin_shutdown();
    assert_eq!(control.lifecycle, LifecycleState::ShuttingDown);
    let error = control.reserve_slot("s".to_string()).unwrap_err();
    assert_eq!(error.code, AgentErrorCode::AgentShutdown);
    assert_eq!(error.message, "agent is shutting down");
    control.finish_shutdown();
    assert_eq!(control.lifecycle, LifecycleState::Shutdown);
}

#[test]
fn appends_number_events_and_resume_projects_the_same() {
    let mut live = SessionRuntimeState::created("s1".to_string(), Vec::new(), 100);
    assert_eq!(live.summary().title, "Untitled session");
    assert_eq!(live.summary().created_at, 100);
    let first = live.append_event(
        SessionEventPayload::Metadata { key: SESSION_PROFILE_KEY.to_string(), value: Value::Null },
        None,
    );
    let second = live.append_event(user("  hello /commit world \nmore"), None);
    let third = live.append_event(
        SessionEventPayload::AssistantMessage { content: vec![ContentBlock::text("hi")], status: MessageStatus::Incomplete },
        None,
    );
    assert_eq!((first.seq, second.seq, third.seq), (1, 2, 3));
    assert_eq!(live.summary().title, "hello world");
    assert_eq!(live.summary().message_count, 2);
    assert_eq!(live.context_state().visible_messages.len(), 3);

    let stored: Vec<LedgerEvent> = live.ledger().events().to_vec();
    let resumed = SessionRuntimeState::resumed(
        "s1".to_string(),
        SessionLedger::with_events(stored),
        vec![None, None, None],
        Vec::new(),
    );
    assert_eq!(resumed.context_state(), live.context_state());
    assert_eq!(resumed.summary(), live.summary());
    assert_eq!(session_profile_index(resumed.ledger()), Some(0));
}

#[test]
fn turns_are_counted_and_exclusive() {
    let mut state = SessionRuntimeState::created("s".to_string(), Vec::new(), 0);
    assert_eq!(state.begin_turn().unwrap(), 1);
    let error = state.begin_turn().unwrap_err();
    assert_eq!(error.code, AgentErrorCode::TurnBusy);
    state.finish_turn();
    assert_eq!(state.begin_turn().unwrap(), 2);
    state.finish_turn();
    state.mark_closed();
    let error = state.begin_turn().unwrap_err();
    assert_eq!(error.code, AgentErrorCode::SessionNotFound);
    assert_eq!(error.message, "session is already closed");
    assert_eq!(state.turn_index(), 2);
}

#[test]
fn compaction_replaces_older_history() {
    let mut ledger = SessionLedger::new();
    ledger.append_payload_at(user("old question"), 1);
    ledger.append_payload_at(user("newer question"), 2);
    ledger.append_payload_at(
        SessionEventPayload::Metadata { key: "context_compaction".to_string(), value: Value::Null },
        3,
    );
    ledger.append_payload_at(user("latest"), 4);
    let record = CompactionRecord {
        mode: CompactionMode::Summary,
        replaces_through_seq: 2,
        summary_body: Some("they asked twice".to_string()),
    };
    let context = ContextManager::rebuild_visible_messages(&ledger, &vec![None, None, Some(record), None]);
    assert_eq!(context.visible_messages.len(), 2);
    assert_eq!(context.visible_messages[0].source_seq, None);
    assert_eq!(
        context.visible_messages[0].message.content,
        vec![ContentBlock::text(&format!("{COMPACTION_SUMMARY_PREFIX}\n\nthey asked twice"))]
    );
    assert_eq!(context.visible_messages[1].source_seq, Some(4));
    assert_eq!(ContextManager::render_compaction_summary("x"), format!("{COMPACTION_SUMMARY_PREFIX}\n\nx"));
}

#[test]
fn interrupted_assistant_messages_get_a_notice() {
    let mut ledger = SessionLedger::new();
    ledger.append_payload_at(
        SessionEventPayload::AssistantMessage { content: vec![ContentBlock::text("half")], status: MessageStatus::Incomplete },
        1,
    );
    let context = ContextManager::rebuild_visible_messages(&ledger, &vec![None]);
    assert_eq!(context.visible_messages.len(), 2);
    assert_eq!(context.visible_messages[1].message.content, vec![ContentBlock::text(INTERRUPTED_MESSAGE_NOTICE)]);
}

#[test]
fn titles_come_from_the_first_user_text() {
    assert_eq!(normalize_text_title("  /skill   fix the   bug  \nsecond"), "fix the bug");
    assert_eq!(normalize_text_title("/only"), "");
    let mut ledger = SessionLedger::new();
    assert_eq!(project_title(&ledger), "Untitled session");
    ledger.append_payload_at(
        SessionEventPayload::UserMessage {
            content: vec![
                ContentBlock::Image { mime_type: "image/png".to_string(), data_base64: "x".to_string() },
                ContentBlock::FileContent { file_name: None, media_type: None, text: "  first line \nrest".to_string() },
            ],
        },
        5,
    );
    assert_eq!(project_title(&ledger), "first line");
    let summary = project_summary_at("s", &ledger, 99);
    assert_eq!(summary.created_at, 5);
    assert_eq!(summary.updated_at, 5);
    assert_eq!(summary.message_count, 1);
}

#[test]
fn missing_profile_is_reported() {
    let ledger = SessionLedger::new();
    assert_eq!(session_profile_index(&ledger), None);
    let error = missing_profile_error();
    assert_eq!(error.code, AgentErrorCode::SessionNotFound);
    assert_eq!(error.message, "session profile metadata is missing");
}

#[test]
fn settling_a_reservation_commits_or_rolls_back() {
    let mut control: AgentControlState<u32> = AgentControlState::new();
    let id = control.reserve_slot("s1".to_string()).unwrap();
    let failure = stateless_codex::AgentError::new(AgentErrorCode::InvalidConfig, "bad".to_string());
    let error = control.settle_reservation(&id, Err(failure)).unwrap_err();
    assert_eq!(error.message, "bad");
    assert!(matches!(control.slot, SessionSlotState::Empty));

    let id = control.reserve_slot("s2".to_string()).unwrap();
    assert!(control.settle_reservation(&id, Ok(5)).is_ok());
    assert_eq!(control.active_runtime(), Some(&5));
    assert_eq!(control.check_deletable("s2").unwrap_err().message, "cannot delete the active session");
    assert!(control.check_deletable("other").is_ok());
    let error = control.settle_reservation("stale", Ok(6)).unwrap_err();
    assert_eq!(error.code, AgentErrorCode::SessionBusy);
    assert_eq!(control.active_runtime(), Some(&5));
}

#[test]
fn sessions_with_a_running_turn_cannot_close() {
    let mut state = SessionRuntimeState::created("s".to_string(), Vec::new(), 0);
    assert!(state.check_closable().is_ok());
    state.begin_turn().unwrap();
    let error = state.check_closable().unwrap_err();
    assert_eq!(error.code, AgentErrorCode::TurnBusy);
    assert_eq!(error.message, "cannot close a session while a turn is still running");
}

#[test]
fn skill_invocations_are_recorded_one_object_per_skill_in_order() {
    let value = skill_invocations_value(&vec!["commit".to_string(), "review".to_string()]);
    let items = value.as_array().expect("an array");
    assert_eq!(items.len(), 2);
    assert_eq!(items[0]["skill_name"], Value::String("commit".to_string()));
    assert_eq!(items[1]["skill_name"], Value::String("review".to_string()));
    assert_eq!(items[0].as_object().expect("an object").len(), 1);
    assert_eq!(skill_invocations_value(&Vec::new()), Value::Array(Vec::new()));
}

#[test]
fn turn_bookkeeping_and_closing_keep_the_summary() {
    let mut state = SessionRuntimeState::created("s".to_string(), Vec::new(), 42);
    let before = state.summary().clone();
    state.begin_turn().expect("a turn begins");
    state.set_last_turn_memories(Vec::new());
    state.finish_turn();
    state.mark_closed();
    assert_eq!(state.summary(), &before);
    assert_eq!(state.summary().created_at, 42);
    assert_eq!(state.summary().updated_at, 42);
}
