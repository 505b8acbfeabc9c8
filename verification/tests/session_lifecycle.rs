use serde_json::Value;
use stateless_codex::application::session_service::{
    session_profile_index, AgentControlState, SessionRuntimeState, SessionSlotState,
};
use stateless_codex::application::session_setup::{begin_close, finish_close, SessionSetup, SetupAction, SetupEvent};
use stateless_codex::domain::ledger::SESSION_PROFILE_KEY;
use stateless_codex::support::in_memory::SessionStore;
use stateless_codex::{
    AgentBuilder, AgentConfig, AgentCore, AgentError, AgentErrorCode, ContentBlock, ModelInfo, ProviderProfile,
    ResolvedSessionConfig, SessionConfig, SessionEventPayload, SessionPinnedConfig,
};

fn profile() -> SessionEventPayload {
    SessionEventPayload::Metadata { key: SESSION_PROFILE_KEY.to_string(), value: Value::String("gpt-test".to_string()) }
}

/// Opens a session as the agent does: the profile is its first event, and every event is
/// handed to the storage with the new summary.
fn open_session(store: &mut SessionStore, session_id: &str) -> SessionRuntimeState {
    let mut state = SessionRuntimeState::created(session_id.to_string(), Vec::new(), 1);
    let event = state.append_event(profile(), None);
    store.append_event(session_id, &event, state.summary());
    state
}

fn agent_core(namespace: &str) -> AgentCore {
    let config = AgentConfig {
        default_model: "gpt-test".to_string(),
        memory_namespace: namespace.to_string(),
        ..AgentConfig::default()
    };
    let model = ModelInfo {
        model_id: "gpt-test".to_string(),
        display_name: "gpt-test".to_string(),
        context_window: 8_000,
        capabilities: Vec::new(),
    };
    AgentBuilder::new(config)
        .register_model_provider(ProviderProfile { provider_id: "provider".to_string(), models: vec![model] })
        .register_session_storage()
        .build(true)
        .expect("the agent should build")
}

fn encoded(pinned: &SessionPinnedConfig) -> Value {
    let mut map = serde_json::Map::new();
    map.insert("model_id".to_string(), Value::String(pinned.model_id.clone()));
    map.insert("memory_namespace".to_string(), Value::String(pinned.memory_namespace.clone()));
    Value::Object(map)
}

fn decoded(value: &Value) -> SessionPinnedConfig {
    SessionPinnedConfig {
        model_id: value["model_id"].as_str().expect("a model id").to_string(),
        system_prompt_override: None,
        memory_namespace: value["memory_namespace"].as_str().expect("a namespace").to_string(),
    }
}

/// Drives a set-up to its end as the agent does, persisting into `store`; the session's
/// state is what the slot holds once committed.
fn drive(
    control: &mut AgentControlState<SessionRuntimeState>,
    core: &AgentCore,
    store: &mut SessionStore,
    mut setup: SessionSetup,
    mut action: SetupAction,
    hooks: Result<(), AgentError>,
) -> Result<ResolvedSessionConfig, AgentError> {
    let mut hooks = Some(hooks);
    loop {
        let event = match action {
            SetupAction::Fail(e) => return Err(e),
            SetupAction::Commit { state, resolved, .. } => return setup.commit(control, state).map(|_| resolved),
            SetupAction::LoadMemories { .. } => SetupEvent::MemoriesLoaded(Ok(Vec::new())),
            SetupAction::EncodeProfile { pinned } => SetupEvent::ProfileEncoded(Ok(encoded(&pinned))),
            SetupAction::Persist { event, summary } => {
                store.append_event(&setup.session_id, &event, &summary);
                SetupEvent::Persisted(Ok(()))
            },
            SetupAction::LoadEvents { session_id } => SetupEvent::EventsLoaded(store.load_events(&session_id).map(|events| {
                let decoded = events.iter().map(|_| None).collect::<Vec<_>>();
                (events, decoded)
            })),
            SetupAction::DecodeProfile { value } => SetupEvent::ProfileDecoded(Ok(decoded(&value))),
            SetupAction::RunSessionStartHooks { .. } => SetupEvent::HooksRan(hooks.take().expect("the hooks run once")),
        };
        action = setup.step(control, core, event);
    }
}

#[test]
fn new_session_writes_session_profile_first() {
    let core = agent_core("workspace");
    let mut store = SessionStore::new();
    let mut control: AgentControlState<SessionRuntimeState> = AgentControlState::new();
    let (setup, action) = SessionSetup::start_new(&mut control, &core, "s1".to_string(), SessionConfig::default());
    assert!(matches!(&action, SetupAction::LoadMemories { namespace, .. } if namespace == "workspace"));
    drive(&mut control, &core, &mut store, setup, action, Ok(())).expect("session should be created");

    let events = store.load_events("s1").expect("events should be persisted");
    assert!(matches!(
        &events[0].payload,
        SessionEventPayload::Metadata { key, value }
            if key == SESSION_PROFILE_KEY && value["model_id"] == Value::String("gpt-test".to_string())
    ));
    assert_eq!(events[0].seq, 1);
    assert_eq!(control.active_session_id(), Some("s1".to_string()));
    let state = control.active_runtime().expect("the session is active");
    assert_eq!(state.ledger().events().len(), 1);
    assert_eq!(session_profile_index(state.ledger()), Some(0));
}

#[test]
fn failed_set_up_rolls_the_reservation_back() {
    let core = agent_core("workspace");
    let mut store = SessionStore::new();
    let mut control: AgentControlState<SessionRuntimeState> = AgentControlState::new();
    let (setup, action) = SessionSetup::start_new(&mut control, &core, "s1".to_string(), SessionConfig::default());
    let hook_error = AgentError::new(AgentErrorCode::HookAborted, "no".to_string());
    let result = drive(&mut control, &core, &mut store, setup, action, Err(hook_error.clone()));
    assert_eq!(result, Err(hook_error));
    assert_eq!(control.active_session_id(), None);
    // The first event was persisted before the hooks failed, and stays.
    assert_eq!(store.load_events("s1").expect("persisted").len(), 1);
    let (setup, action) = SessionSetup::start_new(&mut control, &core, "s2".to_string(), SessionConfig::default());
    assert!(drive(&mut control, &core, &mut store, setup, action, Ok(())).is_ok());
    assert_eq!(control.active_session_id(), Some("s2".to_string()));
}

#[test]
fn blank_namespace_and_unknown_model_fail_before_any_event() {
    let mut control: AgentControlState<SessionRuntimeState> = AgentControlState::new();
    let (_, action) = SessionSetup::start_new(&mut control, &agent_core("  "), "s1".to_string(), SessionConfig::default());
    assert!(matches!(action, SetupAction::Fail(e) if e.code == AgentErrorCode::InvalidConfig));
    assert_eq!(control.active_session_id(), None);
    let config = SessionConfig { model_id: Some("missing".to_string()), system_prompt_override: None };
    let (_, action) = SessionSetup::start_new(&mut control, &agent_core("workspace"), "s1".to_string(), config);
    assert!(matches!(action, SetupAction::Fail(e) if e.code == AgentErrorCode::InvalidDefaultModel && e.message == "unknown model `missing`"));
    assert_eq!(control.active_session_id(), None);
}

#[test]
fn closing_refuses_turns_and_releases_the_slot() {
    let core = agent_core("workspace");
    let mut store = SessionStore::new();
    let mut control: AgentControlState<SessionRuntimeState> = AgentControlState::new();
    let (setup, action) = SessionSetup::start_new(&mut control, &core, "s1".to_string(), SessionConfig::default());
    drive(&mut control, &core, &mut store, setup, action, Ok(())).expect("session should be created");
    let mut state = open_session(&mut SessionStore::new(), "s1");
    state.begin_turn().expect("a turn begins");
    assert_eq!(begin_close(&state).unwrap_err().code, AgentErrorCode::TurnBusy);
    state.finish_turn();
    assert_eq!(begin_close(&state), Ok(0));
    let failed = finish_close(&mut state, &mut control, Err(AgentError::new(AgentErrorCode::HookAborted, "keep".to_string())));
    assert!(failed.is_err());
    assert!(!state.closed());
    assert_eq!(control.active_session_id(), Some("s1".to_string()));
    assert!(finish_close(&mut state, &mut control, Ok(())).is_ok());
    assert!(state.closed());
    assert_eq!(control.active_session_id(), None);
    assert_eq!(state.begin_turn().unwrap_err().code, AgentErrorCode::SessionNotFound);
}

#[test]
fn session_busy_when_active_session_exists() {
    let mut control: AgentControlState<&str> = AgentControlState::new();
    let first = control.reserve_slot("s1".to_string()).expect("first session should be created");
    assert!(control.commit_slot(&first, "runtime").is_ok());
    let second = control.reserve_slot("s2".to_string());
    assert!(second.is_err(), "second session should be rejected");
    assert_eq!(second.unwrap_err().code, AgentErrorCode::SessionBusy);
    control.release_session("s1");
    assert!(control.reserve_slot("s2".to_string()).is_ok());
}

#[test]
fn resume_reuses_pinned_session_profile() {
    let core = agent_core("workspace");
    let mut store = SessionStore::new();
    let mut control: AgentControlState<SessionRuntimeState> = AgentControlState::new();
    let (setup, action) = SessionSetup::start_new(&mut control, &core, "s1".to_string(), SessionConfig::default());
    drive(&mut control, &core, &mut store, setup, action, Ok(())).expect("session should be created");
    let (context, title) = match &mut control.slot {
        SessionSlotState::Active { runtime, .. } => {
            let event =
                runtime.append_event(SessionEventPayload::UserMessage { content: vec![ContentBlock::text("hello")] }, None);
            store.append_event("s1", &event, runtime.summary());
            (runtime.context_state().clone(), runtime.summary().title.clone())
        },
        _ => panic!("the session should be active"),
    };
    control.release_session("s1");

    // The agent's namespace changed since: the resumed session keeps its pinned one.
    let later = agent_core("elsewhere");
    let (setup, action) = SessionSetup::start_resume(&mut control, &later, "s1".to_string());
    assert!(matches!(&action, SetupAction::LoadEvents { session_id } if session_id == "s1"));
    let resolved = drive(&mut control, &later, &mut store, setup, action, Ok(())).expect("session should resume");
    assert_eq!(resolved.pinned.model_id, "gpt-test");
    assert_eq!(resolved.pinned.memory_namespace, "workspace");
    let resumed = control.active_runtime().expect("the session is active");
    assert_eq!(session_profile_index(resumed.ledger()), Some(0));
    assert_eq!(resumed.ledger().events().len(), 2);
    assert_eq!(resumed.summary().title, "hello");
    assert_eq!(title, "hello");
    assert_eq!(resumed.context_state(), &context);
    assert_eq!(resumed.turn_index(), 0);
}

#[test]
fn resume_without_profile_is_refused_and_rolled_back() {
    let core = agent_core("workspace");
    let mut store = SessionStore::new();
    let mut state = SessionRuntimeState::created("s1".to_string(), Vec::new(), 1);
    let event = state.append_event(SessionEventPayload::UserMessage { content: vec![ContentBlock::text("hi")] }, None);
    store.append_event("s1", &event, state.summary());
    let mut control: AgentControlState<SessionRuntimeState> = AgentControlState::new();
    let (setup, action) = SessionSetup::start_resume(&mut control, &core, "s1".to_string());
    let result = drive(&mut control, &core, &mut store, setup, action, Ok(()));
    let error = result.expect_err("no profile, no session");
    assert_eq!(error.code, AgentErrorCode::SessionNotFound);
    assert_eq!(error.message, "session profile metadata is missing");
    assert_eq!(control.active_session_id(), None);
}
