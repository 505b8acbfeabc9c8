//! Structured errors of the agent runtime.

use vstd::prelude::*;
use crate::domain::model::ProviderError;
use crate::domain::model::ProviderErrorKind;

verus! {

/// What went wrong.
#[derive(Debug, Clone, Copy, PartialEq, Eq, Structural)]
pub enum AgentErrorCode {
    NoModelProvider,
    NameConflict,
    InvalidConfig,
    SkillDependencyNotMet,
    StorageDuplicate,
    InvalidDefaultModel,
    AgentShutdown,
    SessionBusy,
    SessionNotFound,
    TurnBusy,
    SkillNotFound,
    InvalidInput,
    ProviderError,
    ModelNotSupported,
    ToolNotFound,
    ToolExecutionError,
    ToolTimeout,
    HookAborted,
    StorageError,
}

/// An error with a code, a human-readable message and a retry hint.
#[derive(Debug, PartialEq, Eq)]
pub struct AgentError {
    pub code: AgentErrorCode,
    pub message: String,
    pub retryable: bool,
}

impl Clone for AgentError {
    fn clone(&self) -> (r: Self)
        ensures
            r == *self,
    {
        AgentError { code: self.code, message: self.message.clone(), retryable: self.retryable }
    }
}

impl AgentError {
    /// A non-retryable error.
    pub fn new(code: AgentErrorCode, message: String) -> (r: Self)
        ensures
            r.code == code,
            r.message == message,
            !r.retryable,
    {
        AgentError { code, message, retryable: false }
    }

    /// The same error with the retry hint set to `retryable`.
    pub fn retryable(self, retryable: bool) -> (r: Self)
        ensures
            r.code == self.code,
            r.message == self.message,
            r.retryable == retryable,
    {
        let mut e = self;
        e.retryable = retryable;
        e
    }
}

/// The code that a provider error of kind `kind` maps to.
pub open spec fn provider_error_code(kind: ProviderErrorKind) -> AgentErrorCode {
    match kind {
        ProviderErrorKind::UnsupportedCapability { .. } => AgentErrorCode::ModelNotSupported,
        _ => AgentErrorCode::ProviderError,
    }
}

/// The error that a provider error becomes: the code by its kind, with its message and
/// retry hint.
pub open spec fn from_provider(v: ProviderError) -> AgentError {
    AgentError { code: provider_error_code(v.kind), message: v.message, retryable: v.retryable }
}

impl From<ProviderError> for AgentError {
    fn from(value: ProviderError) -> (r: Self) {
        let code = match value.kind {
            ProviderErrorKind::UnsupportedCapability { .. } => AgentErrorCode::ModelNotSupported,
            ProviderErrorKind::ContextLengthExceeded => AgentErrorCode::ProviderError,
            ProviderErrorKind::Transport => AgentErrorCode::ProviderError,
            ProviderErrorKind::Provider => AgentErrorCode::ProviderError,
        };
        AgentError { code, message: value.message, retryable: value.retryable }
    }
}

impl vstd::std_specs::convert::FromSpecImpl<ProviderError> for AgentError {
    open spec fn obeys_from_spec() -> bool {
        true
    }

    open spec fn from_spec(v: ProviderError) -> AgentError {
        from_provider(v)
    }
}

} // verus!
