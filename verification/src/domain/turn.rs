//! What a turn is built from and how it ends.

use vstd::prelude::*;
use crate::domain::content::{Message, MessageView};
use crate::domain::error::AgentError;

verus! {

/// A skill prompt to inject after the turn's user message.
#[derive(Debug, PartialEq, Eq)]
pub struct ResolvedSkillInjection {
    pub skill_name: String,
    pub rendered_xml: String,
}

impl Clone for ResolvedSkillInjection {
    fn clone(&self) -> (r: Self)
        ensures
            r == *self,
    {
        ResolvedSkillInjection { skill_name: self.skill_name.clone(), rendered_xml: self.rendered_xml.clone() }
    }
}

/// The injections of a turn and the ledger seq of the user message they follow.
#[derive(Debug, Clone, PartialEq, Eq)]
pub struct TurnAugmentation {
    pub origin_user_seq: u64,
    pub skill_injections: Vec<ResolvedSkillInjection>,
}

/// The messages of a request: history before the turn's user message, that message,
/// the skill injections, and the history after it.
#[derive(Debug, PartialEq, Eq)]
pub struct RequestContext {
    pub pre_anchor_messages: Vec<Message>,
    pub anchor_message: Message,
    pub post_anchor_augmentations: Vec<Message>,
    pub post_anchor_messages: Vec<Message>,
}

/// The mathematical model of a request context.
pub struct RequestContextView {
    pub pre_anchor_messages: Seq<MessageView>,
    pub anchor_message: MessageView,
    pub post_anchor_augmentations: Seq<MessageView>,
    pub post_anchor_messages: Seq<MessageView>,
}

impl View for RequestContext {
    type V = RequestContextView;

    open spec fn view(&self) -> RequestContextView {
        RequestContextView {
            pre_anchor_messages: self.pre_anchor_messages@.map_values(|m: Message| m@),
            anchor_message: self.anchor_message@,
            post_anchor_augmentations: self.post_anchor_augmentations@.map_values(|m: Message| m@),
            post_anchor_messages: self.post_anchor_messages@.map_values(|m: Message| m@),
        }
    }
}

/// How a turn ended.
#[derive(Debug, PartialEq, Eq)]
pub enum TurnOutcome {
    Completed,
    Cancelled,
    Failed(AgentError),
    Panicked,
}

impl Clone for TurnOutcome {
    fn clone(&self) -> (r: Self)
        ensures
            r == *self,
    {
        match self {
            TurnOutcome::Completed => TurnOutcome::Completed,
            TurnOutcome::Cancelled => TurnOutcome::Cancelled,
            TurnOutcome::Failed(e) => TurnOutcome::Failed(e.clone()),
            TurnOutcome::Panicked => TurnOutcome::Panicked,
        }
    }
}

} // verus!
