//! The session life cycle around the agent's session slot: setting a session up, new or
//! resumed from storage, between the reservation of the slot and its commit, and closing
//! it.
//!
//! A set-up is a state machine. The application layer performs its actions (loading the
//! bootstrap memories or the stored events, encoding or decoding the session profile,
//! handing the first event to storage, running the session-start hooks) and hands back
//! their results; the machine decides the rest. A failure after the reservation rolls the
//! reservation back and is handed on unchanged; a set-up that reaches its end commits the
//! session to the slot. A new session's profile is the first event of its ledger.

use vstd::prelude::*;
use serde_json::Value;
use crate::api::agent::{all_model_ids, lemma_all_model_ids_serves, AgentCore, AgentCoreView};
use crate::application::context_manager::projected_context;
use crate::application::session_service::{
    after_commit, after_release, after_reserve, after_rollback, is_first_profile, missing_profile_error, reserved_with,
    lemma_projections_follow_ledger, session_profile_index, summary_of, summary_view, AgentControlState, LifecycleState,
    SessionRuntimeState,
};
use crate::domain::config::{
    resolve_session_pinned_config, resolve_session_runtime_policy, runtime_policy_holds, ResolvedSessionConfig,
    SessionConfig, SessionPinnedConfig,
};
use crate::domain::error::{AgentError, AgentErrorCode};
use crate::domain::ledger::{
    is_metadata_with_key, now_micros, LedgerEvent, LedgerEventView, PayloadView, SessionEventPayload, SessionLedger,
    SESSION_PROFILE_KEY,
};
use crate::domain::memory::Memory;
use crate::domain::session::{CompactionRecord, SessionSummary};
use crate::json::clone_json;
use crate::text::trim;

verus! {

/// What the set-up needs done next.
#[derive(Debug)]
pub enum SetupAction {
    /// Load up to `limit` of the most recent memories of `namespace` (none without a
    /// memory storage).
    LoadMemories { namespace: String, limit: usize },
    /// Encode the pinned configuration as the session profile's value.
    EncodeProfile { pinned: SessionPinnedConfig },
    /// Hand the session's first event, and the summary after it, to the session storage
    /// (nothing to do without one).
    Persist { event: LedgerEvent, summary: SessionSummary },
    /// Load the stored events of the session.
    LoadEvents { session_id: String },
    /// Decode the stored session profile's value as a pinned configuration.
    DecodeProfile { value: Value },
    /// Run the session-start hooks.
    RunSessionStartHooks { session_id: String, model_id: String },
    /// Build the session's runtime around `state`, with the configuration `resolved` and
    /// the model registered at `model` (provider, position), and hand it to `commit`.
    Commit { state: SessionRuntimeState, resolved: ResolvedSessionConfig, model: (usize, usize) },
    /// The set-up failed with this error; a reservation it made is rolled back.
    Fail(AgentError),
}

/// The result of a set-up action.
#[derive(Debug)]
pub enum SetupEvent {
    MemoriesLoaded(Result<Vec<Memory>, AgentError>),
    ProfileEncoded(Result<Value, AgentError>),
    Persisted(Result<(), AgentError>),
    /// The stored events, each with what its metadata value decodes to as a compaction
    /// record.
    EventsLoaded(Result<(Vec<LedgerEvent>, Vec<Option<CompactionRecord>>), AgentError>),
    ProfileDecoded(Result<SessionPinnedConfig, AgentError>),
    HooksRan(Result<(), AgentError>),
}

/// Where a set-up stands: what it waits for and what it holds.
#[derive(Debug)]
pub enum SetupPhase {
    /// A new session waits for its bootstrap memories.
    NewMemories { resolved: ResolvedSessionConfig, model: (usize, usize) },
    /// A new session waits for its encoded profile.
    NewProfile { resolved: ResolvedSessionConfig, model: (usize, usize), memories: Vec<Memory> },
    /// A new session waits for its first event to be persisted.
    NewPersist { resolved: ResolvedSessionConfig, model: (usize, usize), state: SessionRuntimeState },
    /// A resumed session waits for its stored events.
    ResumeEvents,
    /// A resumed session waits for its decoded profile.
    ResumeProfile { ledger: SessionLedger, decoded: Vec<Option<CompactionRecord>> },
    /// A resumed session waits for its bootstrap memories.
    ResumeMemories {
        resolved: ResolvedSessionConfig,
        model: (usize, usize),
        ledger: SessionLedger,
        decoded: Vec<Option<CompactionRecord>>,
    },
    /// The session's state is built; the session-start hooks run.
    Hooks { resolved: ResolvedSessionConfig, model: (usize, usize), state: SessionRuntimeState },
    /// The set-up is over.
    Ended,
}

/// The set-up of the session `session_id` under the slot reservation `reservation_id`.
#[derive(Debug)]
pub struct SessionSetup {
    pub session_id: String,
    pub reservation_id: String,
    pub phase: SetupPhase,
}

/// Whether a running agent's slot is free to be reserved.
pub open spec fn reservable<R>(c: AgentControlState<R>) -> bool {
    c.lifecycle == LifecycleState::Running && c.slot is Empty
}

/// Whether `a` is the refusal of a reservation of the slot of `c`.
pub open spec fn refusal<R>(c: AgentControlState<R>, a: SetupAction) -> bool {
    &&& c.lifecycle != LifecycleState::Running ==> (a matches SetupAction::Fail(e) && e.code
        == AgentErrorCode::AgentShutdown)
    &&& c.lifecycle == LifecycleState::Running && !(c.slot is Empty) ==> (a matches SetupAction::Fail(e) && e.code
        == AgentErrorCode::SessionBusy)
}

/// Whether `model` is where `model_id` is registered among the agent's providers.
pub open spec fn model_at(core: AgentCoreView, model: (usize, usize), model_id: Seq<char>) -> bool {
    &&& model.0 < core.providers.len()
    &&& model.1 < core.providers[model.0 as int].models@.len()
    &&& core.providers[model.0 as int].models@[model.1 as int].model_id@ == model_id
}

/// Whether `resolved` is the configuration that the agent gives a session pinned to
/// `pinned`.
pub open spec fn resolved_for(core: AgentCoreView, resolved: ResolvedSessionConfig, pinned: SessionPinnedConfig) -> bool {
    resolved.pinned == pinned && runtime_policy_holds(resolved.runtime_policy, core.config, pinned)
}

/// The model a new session asks for: its own choice, else the agent's default.
pub open spec fn requested_model(core: AgentCoreView, session_config: SessionConfig) -> Seq<char> {
    match session_config.model_id {
        Some(m) => m@,
        None => core.config.default_model@,
    }
}

/// Whether `a` asks for the bootstrap memories of a session configured by `resolved`.
pub open spec fn loads_memories_for(a: SetupAction, resolved: ResolvedSessionConfig) -> bool {
    a matches SetupAction::LoadMemories { namespace, limit } && namespace@ == resolved.pinned.memory_namespace@ && limit
        == resolved.runtime_policy.memory_max_items
}

/// Whether `a` asks for the session-start hooks of the session `session_id` on the model
/// of `resolved`.
pub open spec fn runs_hooks_for(a: SetupAction, session_id: Seq<char>, resolved: ResolvedSessionConfig) -> bool {
    a matches SetupAction::RunSessionStartHooks { session_id: s, model_id } && s@ == session_id && model_id@
        == resolved.pinned.model_id@
}

/// Whether `state` is a session's state as a set-up leaves it: consistent, of the session
/// `session_id`, open, with no turn begun and no memories found for a turn.
pub open spec fn fresh_state(state: SessionRuntimeState, session_id: Seq<char>) -> bool {
    &&& state.wf()
    &&& state.session_id_view() == session_id
    &&& state.turns() == 0
    &&& !state.turn_running()
    &&& !state.is_closed()
    &&& state.memories().last_turn_memories@.len() == 0
}

/// Whether `events` is the ledger of a new session whose profile has the value `value`:
/// that profile is its one event, numbered one.
pub open spec fn profile_ledger(events: Seq<LedgerEventView>, value: Value) -> bool {
    &&& events.len() == 1
    &&& events[0].seq == 1
    &&& events[0].payload == (PayloadView::Metadata { key: SESSION_PROFILE_KEY@, value })
}

/// The views of a sequence of events.
pub open spec fn event_views(events: Seq<LedgerEvent>) -> Seq<LedgerEventView> {
    events.map_values(|e: LedgerEvent| e@)
}

/// The value of the stored session profile at event `k`.
pub open spec fn profile_value(events: Seq<LedgerEventView>, k: int) -> Value {
    events[k].payload->Metadata_value
}

/// Whether `event` is the result of the action that `phase` waits for.
pub open spec fn accepts(phase: SetupPhase, event: SetupEvent) -> bool {
    match phase {
        SetupPhase::NewMemories { .. } => event is MemoriesLoaded,
        SetupPhase::NewProfile { .. } => event is ProfileEncoded,
        SetupPhase::NewPersist { .. } => event is Persisted,
        SetupPhase::ResumeEvents => event is EventsLoaded,
        SetupPhase::ResumeProfile { .. } => event is ProfileDecoded,
        SetupPhase::ResumeMemories { .. } => event is MemoriesLoaded,
        SetupPhase::Hooks { .. } => event is HooksRan,
        SetupPhase::Ended => false,
    }
}

/// The error that `event` carries, if it carries one.
pub open spec fn event_error(event: SetupEvent) -> Option<AgentError> {
    match event {
        SetupEvent::MemoriesLoaded(Err(e)) => Some(e),
        SetupEvent::ProfileEncoded(Err(e)) => Some(e),
        SetupEvent::Persisted(Err(e)) => Some(e),
        SetupEvent::EventsLoaded(Err(e)) => Some(e),
        SetupEvent::ProfileDecoded(Err(e)) => Some(e),
        SetupEvent::HooksRan(Err(e)) => Some(e),
        _ => None,
    }
}

/// One successful step of a set-up of the session `session_id` on the agent `core`: from
/// the phase `p`, the result `event` leads to the phase `q` and the action `a`.
pub open spec fn setup_step(core: AgentCoreView, session_id: Seq<char>, p: SetupPhase, event: SetupEvent, q: SetupPhase, a: SetupAction) -> bool {
    match (p, event) {
        (SetupPhase::NewMemories { resolved, model }, SetupEvent::MemoriesLoaded(Ok(memories))) => {
            &&& a == (SetupAction::EncodeProfile { pinned: resolved.pinned })
            &&& q == (SetupPhase::NewProfile { resolved, model, memories })
        },
        (SetupPhase::NewProfile { resolved, model, memories }, SetupEvent::ProfileEncoded(Ok(value))) => {
            &&& q matches SetupPhase::NewPersist { resolved: r2, model: m2, state }
            &&& r2 == resolved && m2 == model
            &&& fresh_state(state, session_id)
            &&& profile_ledger(state.events(), value)
            &&& state.memories().bootstrap_memories == memories
            &&& a matches SetupAction::Persist { event, summary }
            &&& state.events() == seq![event@]
            &&& summary == state.summary_spec()
        },
        (SetupPhase::NewPersist { resolved, model, state }, SetupEvent::Persisted(Ok(()))) => {
            &&& runs_hooks_for(a, session_id, resolved)
            &&& q == (SetupPhase::Hooks { resolved, model, state })
        },
        (SetupPhase::ResumeEvents, SetupEvent::EventsLoaded(Ok((events, decoded)))) => {
            let stored = event_views(events@);
            if exists|k: int| is_first_profile(stored, k) {
                &&& q matches SetupPhase::ResumeProfile { ledger, decoded: d }
                &&& ledger@ == stored && d@ == decoded@
                &&& exists|k: int| #[trigger] is_first_profile(stored, k) && a == (SetupAction::DecodeProfile {
                    value: profile_value(stored, k),
                })
            } else {
                a matches SetupAction::Fail(e) && e.code == AgentErrorCode::SessionNotFound && e.message@
                    == "session profile metadata is missing"@
            }
        },
        (SetupPhase::ResumeProfile { ledger, decoded }, SetupEvent::ProfileDecoded(Ok(pinned))) => {
            if all_model_ids(core.providers).contains(pinned.model_id@) {
                &&& q matches SetupPhase::ResumeMemories { resolved, model, ledger: l2, decoded: d2 }
                &&& resolved_for(core, resolved, pinned)
                &&& model_at(core, model, pinned.model_id@)
                &&& l2 == ledger && d2 == decoded
                &&& loads_memories_for(a, resolved)
            } else {
                a matches SetupAction::Fail(e) && e.code == AgentErrorCode::InvalidDefaultModel
            }
        },
        (SetupPhase::ResumeMemories { resolved, model, ledger, decoded }, SetupEvent::MemoriesLoaded(Ok(memories))) => {
            &&& q matches SetupPhase::Hooks { resolved: r2, model: m2, state }
            &&& r2 == resolved && m2 == model
            &&& fresh_state(state, session_id)
            &&& state.events() == ledger@
            &&& state.decoded() == decoded@
            &&& state.context() == projected_context(ledger@, decoded@)
            &&& exists|now: i64| #[trigger] summary_of(state.summary_spec(), session_id, ledger@, now)
            &&& state.memories().bootstrap_memories == memories
            &&& runs_hooks_for(a, session_id, resolved)
        },
        (SetupPhase::Hooks { resolved, model, state }, SetupEvent::HooksRan(Ok(()))) => {
            &&& a == (SetupAction::Commit { state, resolved, model })
            &&& q is Ended
        },
        _ => false,
    }
}

impl SessionSetup {
    /// What the phase holds is consistent: a built state is a fresh state of this
    /// session, and a new session's state holds its profile as its one event.
    pub open spec fn wf(self) -> bool {
        match self.phase {
            SetupPhase::NewPersist { state, .. } => {
                &&& fresh_state(state, self.session_id@)
                &&& state.events().len() == 1
                &&& is_first_profile(state.events(), 0)
            },
            SetupPhase::ResumeProfile { ledger, decoded } => decoded@.len() == ledger@.len(),
            SetupPhase::ResumeMemories { ledger, decoded, .. } => decoded@.len() == ledger@.len(),
            SetupPhase::Hooks { state, .. } => fresh_state(state, self.session_id@),
            _ => true,
        }
    }

    /// Begins the set-up of a new session: reserves the slot for `session_id`, resolves
    /// the pinned configuration and finds its model. A refused reservation changes
    /// nothing; a failure after it rolls the reservation back.
    pub fn start_new<R>(control: &mut AgentControlState<R>, core: &AgentCore, session_id: String, session_config: SessionConfig) -> (r: (SessionSetup, SetupAction))
        ensures
            r.0.wf(),
            r.0.session_id == session_id,
            !reservable(*old(control)) ==> {
                &&& refusal(*old(control), r.1)
                &&& *final(control) == *old(control)
                &&& r.0.phase is Ended
            },
            reservable(*old(control)) ==> {
                let reserved = after_reserve(*old(control), session_id, r.0.reservation_id);
                let model_id = requested_model(core@, session_config);
                &&& trim(core@.config.memory_namespace@).len() == 0 ==> {
                    &&& r.1 matches SetupAction::Fail(e) && e.code == AgentErrorCode::InvalidConfig
                    &&& *final(control) == after_rollback(reserved, r.0.reservation_id@)
                    &&& final(control).slot is Empty
                    &&& r.0.phase is Ended
                }
                &&& trim(core@.config.memory_namespace@).len() > 0 && !all_model_ids(core@.providers).contains(model_id) ==> {
                    &&& r.1 matches SetupAction::Fail(e) && e.code == AgentErrorCode::InvalidDefaultModel
                    &&& *final(control) == after_rollback(reserved, r.0.reservation_id@)
                    &&& final(control).slot is Empty
                    &&& r.0.phase is Ended
                }
                &&& trim(core@.config.memory_namespace@).len() > 0 && all_model_ids(core@.providers).contains(model_id) ==> {
                    &&& *final(control) == reserved
                    &&& r.0.phase matches SetupPhase::NewMemories { resolved, model }
                    &&& resolved.pinned.model_id@ == model_id
                    &&& resolved.pinned.memory_namespace@ == trim(core@.config.memory_namespace@)
                    &&& runtime_policy_holds(resolved.runtime_policy, core@.config, resolved.pinned)
                    &&& model_at(core@, model, model_id)
                    &&& loads_memories_for(r.1, resolved)
                }
            },
    {
        let reservation_id = match control.reserve_slot(session_id.clone()) {
            Ok(id) => id,
            Err(e) => {
                let setup = SessionSetup { session_id, reservation_id: String::new(), phase: SetupPhase::Ended };
                return (setup, SetupAction::Fail(e));
            },
        };
        let ghost reserved = *control;
        let mut setup = SessionSetup { session_id, reservation_id, phase: SetupPhase::Ended };
        let pinned = match resolve_session_pinned_config(core.config(), session_config) {
            Ok(p) => p,
            Err(e) => {
                control.rollback_slot(setup.reservation_id.as_str());
                return (setup, SetupAction::Fail(e));
            },
        };
        let model = match core.model_registration(pinned.model_id.as_str()) {
            Ok(m) => {
                proof {
                    lemma_all_model_ids_serves(core@.providers, pinned.model_id@);
                    assert(core@.providers[m.0 as int].models@[m.1 as int].model_id@ == pinned.model_id@);
                }
                m
            },
            Err(e) => {
                control.rollback_slot(setup.reservation_id.as_str());
                return (setup, SetupAction::Fail(e));
            },
        };
        let runtime_policy = resolve_session_runtime_policy(core.config(), &pinned);
        let action = SetupAction::LoadMemories {
            namespace: pinned.memory_namespace.clone(),
            limit: runtime_policy.memory_max_items,
        };
        setup.phase = SetupPhase::NewMemories { resolved: ResolvedSessionConfig { pinned, runtime_policy }, model };
        (setup, action)
    }

    /// Begins the set-up of a session resumed from storage: refused without a session
    /// storage, and as any reservation is refused; otherwise the slot is reserved and the
    /// stored events are asked for.
    pub fn start_resume<R>(control: &mut AgentControlState<R>, core: &AgentCore, session_id: String) -> (r: (SessionSetup, SetupAction))
        ensures
            r.0.wf(),
            r.0.session_id == session_id,
            !core@.session_storage ==> {
                &&& r.1 matches SetupAction::Fail(e) && e.code == AgentErrorCode::SessionNotFound
                    && e.message@ == "session storage is not registered"@
                &&& *final(control) == *old(control)
                &&& r.0.phase is Ended
            },
            core@.session_storage && !reservable(*old(control)) ==> {
                &&& refusal(*old(control), r.1)
                &&& *final(control) == *old(control)
                &&& r.0.phase is Ended
            },
            core@.session_storage && reservable(*old(control)) ==> {
                &&& *final(control) == after_reserve(*old(control), session_id, r.0.reservation_id)
                &&& r.1 matches SetupAction::LoadEvents { session_id: s } && s@ == session_id@
                &&& r.0.phase is ResumeEvents
            },
    {
        if let Err(e) = core.require_session_storage() {
            return (SessionSetup { session_id, reservation_id: String::new(), phase: SetupPhase::Ended }, SetupAction::Fail(e));
        }
        match control.reserve_slot(session_id.clone()) {
            Ok(reservation_id) => {
                let action = SetupAction::LoadEvents { session_id: session_id.clone() };
                (SessionSetup { session_id, reservation_id, phase: SetupPhase::ResumeEvents }, action)
            },
            Err(e) => (SessionSetup { session_id, reservation_id: String::new(), phase: SetupPhase::Ended }, SetupAction::Fail(e)),
        }
    }

    /// Takes the result of the action asked for last. A failed action ends the set-up:
    /// its error is handed on and the reservation is rolled back. Otherwise the set-up
    /// moves on as `setup_step` says, and the control state is left alone.
    pub fn step<R>(&mut self, control: &mut AgentControlState<R>, core: &AgentCore, event: SetupEvent) -> (a: SetupAction)
        requires
            old(self).wf(),
            accepts(old(self).phase, event),
            event matches SetupEvent::EventsLoaded(Ok((events, decoded))) ==> decoded@.len() == events@.len(),
        ensures
            final(self).wf(),
            final(self).session_id == old(self).session_id,
            final(self).reservation_id == old(self).reservation_id,
            a is Fail ==> {
                &&& *final(control) == after_rollback(*old(control), old(self).reservation_id@)
                &&& final(self).phase is Ended
            },
            !(a is Fail) ==> *final(control) == *old(control),
            event_error(event) matches Some(e) ==> a == SetupAction::Fail(e),
            event_error(event) is None ==> setup_step(
                core@,
                old(self).session_id@,
                old(self).phase,
                event,
                final(self).phase,
                a,
            ),
    {
        let mut phase = SetupPhase::Ended;
        std::mem::swap(&mut phase, &mut self.phase);
        match (phase, event) {
            (SetupPhase::NewMemories { resolved, model }, SetupEvent::MemoriesLoaded(Ok(memories))) => {
                let action = SetupAction::EncodeProfile { pinned: resolved.pinned.clone() };
                self.phase = SetupPhase::NewProfile { resolved, model, memories };
                action
            },
            (SetupPhase::NewProfile { resolved, model, memories }, SetupEvent::ProfileEncoded(Ok(value))) => {
                let mut state = SessionRuntimeState::created(self.session_id.clone(), memories, now_micros());
                let ghost v = value;
                let payload = SessionEventPayload::Metadata { key: SESSION_PROFILE_KEY.to_owned(), value };
                let event = state.append_event(payload, None);
                assert(state.events() =~= seq![event@]);
                assert(is_metadata_with_key(state.events()[0].payload, SESSION_PROFILE_KEY@));
                assert(is_first_profile(state.events(), 0));
                let summary = state.summary().clone();
                self.phase = SetupPhase::NewPersist { resolved, model, state };
                SetupAction::Persist { event, summary }
            },
            (SetupPhase::NewPersist { resolved, model, state }, SetupEvent::Persisted(Ok(()))) => {
                let action = SetupAction::RunSessionStartHooks {
                    session_id: self.session_id.clone(),
                    model_id: resolved.pinned.model_id.clone(),
                };
                self.phase = SetupPhase::Hooks { resolved, model, state };
                action
            },
            (SetupPhase::ResumeEvents, SetupEvent::EventsLoaded(Ok((events, decoded)))) => {
                let ghost stored = event_views(events@);
                let ledger = SessionLedger::with_events(events);
                assert(ledger@ =~= stored);
                match session_profile_index(&ledger) {
                    None => {
                        control.rollback_slot(self.reservation_id.as_str());
                        SetupAction::Fail(missing_profile_error())
                    },
                    Some(k) => {
                        let evs = ledger.events();
                        assert(stored[k as int] == evs@[k as int]@);
                        match &evs[k].payload {
                            SessionEventPayload::Metadata { value, .. } => {
                                let value = clone_json(value);
                                self.phase = SetupPhase::ResumeProfile { ledger, decoded };
                                SetupAction::DecodeProfile { value }
                            },
                            _ => {
                                // The first profile is a metadata event.
                                assert(false);
                                control.rollback_slot(self.reservation_id.as_str());
                                SetupAction::Fail(missing_profile_error())
                            },
                        }
                    },
                }
            },
            (SetupPhase::ResumeProfile { ledger, decoded }, SetupEvent::ProfileDecoded(Ok(pinned))) => {
                match core.model_registration(pinned.model_id.as_str()) {
                    Err(e) => {
                        control.rollback_slot(self.reservation_id.as_str());
                        SetupAction::Fail(e)
                    },
                    Ok(model) => {
                        proof {
                            lemma_all_model_ids_serves(core@.providers, pinned.model_id@);
                            assert(core@.providers[model.0 as int].models@[model.1 as int].model_id@ == pinned.model_id@);
                        }
                        let runtime_policy = resolve_session_runtime_policy(core.config(), &pinned);
                        let action = SetupAction::LoadMemories {
                            namespace: pinned.memory_namespace.clone(),
                            limit: runtime_policy.memory_max_items,
                        };
                        self.phase = SetupPhase::ResumeMemories {
                            resolved: ResolvedSessionConfig { pinned, runtime_policy },
                            model,
                            ledger,
                            decoded,
                        };
                        action
                    },
                }
            },
            (SetupPhase::ResumeMemories { resolved, model, ledger, decoded }, SetupEvent::MemoriesLoaded(Ok(memories))) => {
                let state = SessionRuntimeState::resumed(self.session_id.clone(), ledger, decoded, memories);
                let action = SetupAction::RunSessionStartHooks {
                    session_id: self.session_id.clone(),
                    model_id: resolved.pinned.model_id.clone(),
                };
                self.phase = SetupPhase::Hooks { resolved, model, state };
                action
            },
            (SetupPhase::Hooks { resolved, model, state }, SetupEvent::HooksRan(Ok(()))) => {
                SetupAction::Commit { state, resolved, model }
            },
            (_, SetupEvent::MemoriesLoaded(Err(e))) | (_, SetupEvent::ProfileEncoded(Err(e))) | (_, SetupEvent::Persisted(Err(e)))
            | (_, SetupEvent::EventsLoaded(Err(e))) | (_, SetupEvent::ProfileDecoded(Err(e))) | (_, SetupEvent::HooksRan(Err(e))) => {
                control.rollback_slot(self.reservation_id.as_str());
                SetupAction::Fail(e)
            },
            _ => {
                // `accepts` admits no other pair of phase and result.
                assert(false);
                SetupAction::Fail(missing_profile_error())
            },
        }
    }

    /// Ends a set-up that asked for its commit: the session, with the runtime built from
    /// the state it was handed, becomes the active one. Refused, rolling back, when the
    /// slot no longer holds the reservation.
    pub fn commit<R>(self, control: &mut AgentControlState<R>, runtime: R) -> (r: Result<(), AgentError>)
        ensures
            *final(control) == after_commit(*old(control), self.reservation_id@, runtime),
            reserved_with(old(control).slot, self.reservation_id@) ==> r is Ok,
            !reserved_with(old(control).slot, self.reservation_id@) ==> (r matches Err(e) && e.code
                == AgentErrorCode::SessionBusy),
    {
        control.settle_reservation(self.reservation_id.as_str(), Ok(runtime))
    }
}

/// The first step of closing a session: refused while a turn runs; otherwise the number
/// of messages that the session-end hooks are told of.
pub fn begin_close(state: &SessionRuntimeState) -> (r: Result<u64, AgentError>)
    ensures
        state.turn_running() ==> (r matches Err(e) && e.code == AgentErrorCode::TurnBusy
            && e.message@ == "cannot close a session while a turn is still running"@ && !e.retryable),
        !state.turn_running() ==> r == Ok::<u64, AgentError>(state.summary_spec().message_count),
{
    match state.check_closable() {
        Err(e) => Err(e),
        Ok(()) => Ok(state.summary().message_count),
    }
}

/// The last step of closing a session, once the session-end hooks answered: a failure is
/// handed on and changes nothing; otherwise the session is closed, so no turn can begin
/// in it any more, and its slot is released.
pub fn finish_close<R>(state: &mut SessionRuntimeState, control: &mut AgentControlState<R>, hooks: Result<(), AgentError>) -> (r: Result<(), AgentError>)
    requires
        old(state).wf(),
    ensures
        final(state).wf(),
        match hooks {
            Err(e) => {
                &&& r == Err::<(), AgentError>(e)
                &&& *final(state) == *old(state)
                &&& *final(control) == *old(control)
            },
            Ok(()) => {
                &&& r is Ok
                &&& final(state).is_closed()
                &&& final(state).events() == old(state).events()
                &&& final(state).decoded() == old(state).decoded()
                &&& final(state).context() == old(state).context()
                &&& final(state).summary_spec() == old(state).summary_spec()
                &&& final(state).session_id_view() == old(state).session_id_view()
                &&& final(state).turn_running() == old(state).turn_running()
                &&& *final(control) == after_release(*old(control), old(state).session_id_view())
            },
        },
{
    if let Err(e) = hooks {
        return Err(e);
    }
    state.mark_closed();
    let id = state.session_id().to_owned();
    control.release_session(id.as_str());
    Ok(())
}

/// The profile that a new session's set-up writes is the one that resuming the session
/// finds: a ledger that begins with the profile event, whatever follows it, has its first
/// profile at event 0, with the written value.
pub proof fn lemma_written_profile_is_found(events: Seq<LedgerEventView>, value: Value, later: Seq<LedgerEventView>)
    requires
        profile_ledger(events, value),
    ensures
        is_first_profile(events + later, 0),
        profile_value(events + later, 0) == value,
{
    assert((events + later)[0] == events[0]);
}

/// A session resumes as it was closed. Let `closed` be the state of a session when it was
/// closed, whose ledger begins with the session profile of value `value` (as a new
/// session's set-up writes it), and let the storage give back its events with their
/// decoded compactions. Then resuming asks to decode exactly that value; and once it is
/// decoded to `pinned`, a model the agent serves, and the memories are loaded and the
/// session-start hooks succeed, the set-up commits a state of the same session with the
/// same ledger, compactions, context and summary as at close, open and with no turn
/// begun, configured by `pinned`.
pub proof fn lemma_resume_round_trip(
    core: AgentCoreView,
    closed: SessionRuntimeState,
    value: Value,
    events: Vec<LedgerEvent>,
    decoded: Vec<Option<CompactionRecord>>,
    pinned: SessionPinnedConfig,
    memories: Vec<Memory>,
    q1: SetupPhase,
    a1: SetupAction,
    q2: SetupPhase,
    a2: SetupAction,
    q3: SetupPhase,
    a3: SetupAction,
    q4: SetupPhase,
    a4: SetupAction,
)
    requires
        closed.wf(),
        closed.events().len() > 0,
        closed.events()[0].payload == (PayloadView::Metadata { key: SESSION_PROFILE_KEY@, value }),
        event_views(events@) == closed.events(),
        decoded@ == closed.decoded(),
        all_model_ids(core.providers).contains(pinned.model_id@),
        setup_step(
            core,
            closed.session_id_view(),
            SetupPhase::ResumeEvents,
            SetupEvent::EventsLoaded(Ok((events, decoded))),
            q1,
            a1,
        ),
        setup_step(core, closed.session_id_view(), q1, SetupEvent::ProfileDecoded(Ok(pinned)), q2, a2),
        setup_step(core, closed.session_id_view(), q2, SetupEvent::MemoriesLoaded(Ok(memories)), q3, a3),
        setup_step(core, closed.session_id_view(), q3, SetupEvent::HooksRan(Ok(())), q4, a4),
    ensures
        a1 == (SetupAction::DecodeProfile { value }),
        a4 matches SetupAction::Commit { state, resolved, .. } && {
            &&& resolved.pinned == pinned
            &&& state.session_id_view() == closed.session_id_view()
            &&& state.events() == closed.events()
            &&& state.decoded() == closed.decoded()
            &&& state.context() == closed.context()
            &&& summary_view(state.summary_spec()) == summary_view(closed.summary_spec())
            &&& state.turns() == 0
            &&& !state.turn_running()
            &&& !state.is_closed()
        },
{
    let stored = event_views(events@);
    assert(is_first_profile(stored, 0));
    assert forall|k: int| #[trigger] is_first_profile(stored, k) implies k == 0 by {
        if k > 0 {
            assert(!is_metadata_with_key(stored[0].payload, SESSION_PROFILE_KEY@));
        }
    }
    assert(profile_value(stored, 0) == value);
    if let SetupAction::Commit { state, .. } = a4 {
        lemma_projections_follow_ledger(state, closed);
    }
}

/// Steps that leave the control state alone keep it: the last of a run of control
/// states, each equal to the one before it, is the first.
proof fn lemma_kept_states<R>(kept: Seq<AgentControlState<R>>)
    requires
        kept.len() > 0,
        forall|i: int| 0 <= i < kept.len() - 1 ==> #[trigger] kept[i + 1] == kept[i],
    ensures
        kept.last() == kept[0],
    decreases kept.len(),
{
    if kept.len() > 1 {
        let front = kept.drop_last();
        assert forall|i: int| 0 <= i < front.len() - 1 implies #[trigger] front[i + 1] == front[i] by {
            assert(kept[i + 1] == kept[i]);
        }
        lemma_kept_states(front);
        let j = kept.len() - 2;
        assert(kept[j + 1] == kept[j]);
    }
}

/// A failed set-up leaves the agent's session slot as it found it. The slot of a running
/// agent was free (`before`) and the set-up reserved it under `reservation_id`; the steps
/// that followed left the control state alone (`kept`, as `step` does for every step
/// that does not fail), and the failing step rolled the reservation back (`after`). Then
/// `after` is `before`, with the slot empty, so a later set-up is not refused as busy.
pub proof fn lemma_failed_setup_frees_the_slot<R>(
    before: AgentControlState<R>,
    session_id: String,
    reservation_id: String,
    kept: Seq<AgentControlState<R>>,
    after: AgentControlState<R>,
)
    requires
        reservable(before),
        kept.len() > 0,
        kept[0] == after_reserve(before, session_id, reservation_id),
        forall|i: int| 0 <= i < kept.len() - 1 ==> #[trigger] kept[i + 1] == kept[i],
        after == after_rollback(kept.last(), reservation_id@),
    ensures
        after == before,
        after.slot is Empty,
        reservable(after),
{
    lemma_kept_states(kept);
}

} // verus!
