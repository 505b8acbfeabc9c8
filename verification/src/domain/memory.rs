//! Long-term memories and a session's view of them.

use vstd::prelude::*;
use crate::text::{clone_opt_string, clone_strings};

verus! {

/// A stored memory. Times are microseconds since the Unix epoch.
#[derive(Debug, PartialEq, Eq)]
pub struct Memory {
    pub id: String,
    pub namespace: String,
    pub content: String,
    pub source: Option<String>,
    pub tags: Vec<String>,
    pub created_at: i64,
    pub updated_at: i64,
}

/// The mathematical model of a memory: its tags as a sequence.
pub struct MemoryView {
    pub id: String,
    pub namespace: String,
    pub content: String,
    pub source: Option<String>,
    pub tags: Seq<String>,
    pub created_at: i64,
    pub updated_at: i64,
}

impl View for Memory {
    type V = MemoryView;

    open spec fn view(&self) -> MemoryView {
        MemoryView {
            id: self.id,
            namespace: self.namespace,
            content: self.content,
            source: self.source,
            tags: self.tags@,
            created_at: self.created_at,
            updated_at: self.updated_at,
        }
    }
}

impl Clone for Memory {
    fn clone(&self) -> (r: Self)
        ensures
            r@ == self@,
    {
        Memory {
            id: self.id.clone(),
            namespace: self.namespace.clone(),
            content: self.content.clone(),
            source: clone_opt_string(&self.source),
            tags: clone_strings(&self.tags),
            created_at: self.created_at,
            updated_at: self.updated_at,
        }
    }
}

/// The memories a session loaded when it began and for its latest turn.
#[derive(Debug, Clone, PartialEq, Eq, Default)]
pub struct SessionMemoryState {
    pub bootstrap_memories: Vec<Memory>,
    pub last_turn_memories: Vec<Memory>,
}

/// Where memory extraction last stopped.
#[derive(Debug, Clone, Copy, PartialEq, Eq, Structural)]
pub struct MemoryCheckpointRecord {
    pub last_seq: u64,
    pub turn_index: u64,
}

/// A change to the memory store.
#[derive(Debug, Clone, PartialEq, Eq)]
pub enum MemoryMutation {
    Create(Memory),
    Update(Memory),
    Delete { id: String },
    Skip { reason: Option<String> },
}

} // verus!
