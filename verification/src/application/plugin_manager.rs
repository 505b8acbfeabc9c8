//! Plugin hooks: which plugins a hook reaches, in which order, and what their answers do.
//!
//! A hook visits the registered plugins in registration order, skipping those that do
//! not tap it. Each answer is folded into the hook's result: `Continue` goes on, a patch
//! goes on with the patch applied, and `Abort` stops the hook with `HookAborted`.

use vstd::prelude::*;
use serde_json::Value;
use crate::domain::error::{AgentError, AgentErrorCode};
use crate::domain::hook::{BeforeToolUsePatch, HookKind, HookOutcome, TurnStartPatch};
use crate::domain::plugin::PluginDescriptor;
use crate::text::str_eq;

verus! {

/// The registered plugins, in registration order.
#[derive(Debug)]
pub struct PluginManager {
    entries: Vec<PluginDescriptor>,
}

/// Whether two descriptors hold the same identity and hooks.
pub open spec fn same_descriptor(a: PluginDescriptor, b: PluginDescriptor) -> bool {
    &&& a.id == b.id
    &&& a.display_name == b.display_name
    &&& a.description == b.description
    &&& a.tapped_hooks@ == b.tapped_hooks@
}

/// The ids of the plugins, in order.
pub open spec fn plugin_ids(ds: Seq<PluginDescriptor>) -> Seq<Seq<char>> {
    ds.map_values(|d: PluginDescriptor| d.id@)
}

/// Whether the plugin taps `kind`.
pub open spec fn taps(d: PluginDescriptor, kind: HookKind) -> bool {
    d.tapped_hooks@.contains(kind)
}

/// Whether `i` is the first plugin at or after `from` that taps `kind`.
pub open spec fn is_next_tapped(ds: Seq<PluginDescriptor>, kind: HookKind, from: int, i: int) -> bool {
    &&& from <= i < ds.len()
    &&& taps(ds[i], kind)
    &&& forall|j: int| from <= j < i ==> !taps(#[trigger] ds[j], kind)
}

/// The error of a hook that a plugin aborted with `reason`.
pub open spec fn aborted_error(e: AgentError, reason: Seq<char>) -> bool {
    e.code == AgentErrorCode::HookAborted && e.message@ == reason && !e.retryable
}

fn hook_taps(d: &PluginDescriptor, kind: HookKind) -> (r: bool)
    ensures
        r == taps(*d, kind),
{
    let mut i: usize = 0;
    while i < d.tapped_hooks.len()
        invariant
            i <= d.tapped_hooks.len(),
            forall|j: int| 0 <= j < i ==> d.tapped_hooks@[j] != kind,
        decreases d.tapped_hooks.len() - i,
    {
        if d.tapped_hooks[i] == kind {
            assert(d.tapped_hooks@[i as int] == kind);
            return true;
        }
        i += 1;
    }
    proof {
        if d.tapped_hooks@.contains(kind) {
            let j = choose|j: int| 0 <= j < d.tapped_hooks@.len() && d.tapped_hooks@[j] == kind;
            assert(d.tapped_hooks@[j] != kind);
        }
    }
    false
}

impl PluginManager {
    /// The plugins, in registration order.
    pub closed spec fn view_descriptors(&self) -> Seq<PluginDescriptor> {
        self.entries@
    }

    /// A manager of `entries`, in their order.
    pub fn new(entries: Vec<PluginDescriptor>) -> (r: Self)
        ensures
            r.view_descriptors() == entries@,
    {
        PluginManager { entries }
    }

    /// Registers one more plugin, after the others.
    pub fn add(&mut self, descriptor: PluginDescriptor)
        ensures
            final(self).view_descriptors() == old(self).view_descriptors().push(descriptor),
    {
        self.entries.push(descriptor);
    }

    /// Whether a registered plugin has the id `id`.
    pub fn has_plugin_id(&self, id: &str) -> (r: bool)
        ensures
            r == plugin_ids(self.view_descriptors()).contains(id@),
    {
        let mut i: usize = 0;
        while i < self.entries.len()
            invariant
                i <= self.entries.len(),
                forall|j: int| 0 <= j < i ==> (#[trigger] self.entries@[j]).id@ != id@,
            decreases self.entries.len() - i,
        {
            if str_eq(self.entries[i].id.as_str(), id) {
                assert(plugin_ids(self.entries@)[i as int] == id@);
                return true;
            }
            i += 1;
        }
        proof {
            if plugin_ids(self.entries@).contains(id@) {
                let j = choose|j: int| 0 <= j < plugin_ids(self.entries@).len() && plugin_ids(self.entries@)[j] == id@;
                assert(self.entries@[j].id@ == id@);
            }
        }
        false
    }

    /// The descriptors of the plugins, in registration order.
    pub fn descriptors(&self) -> (r: Vec<PluginDescriptor>)
        ensures
            r@.len() == self.view_descriptors().len(),
            forall|i: int| 0 <= i < r@.len() ==> same_descriptor(#[trigger] r@[i], self.view_descriptors()[i]),
    {
        let mut r: Vec<PluginDescriptor> = Vec::new();
        let mut i: usize = 0;
        while i < self.entries.len()
            invariant
                i <= self.entries.len(),
                r@.len() == i,
                forall|j: int| 0 <= j < i ==> same_descriptor(#[trigger] r@[j], self.entries@[j]),
            decreases self.entries.len() - i,
        {
            let d = &self.entries[i];
            r.push(PluginDescriptor {
                id: d.id.clone(),
                display_name: d.display_name.clone(),
                description: d.description.clone(),
                tapped_hooks: d.tapped_hooks.clone(),
            });
            assert(r@.last().tapped_hooks@ =~= d.tapped_hooks@);
            i += 1;
        }
        r
    }

    /// The next plugin, at or after `from`, that the hook `kind` reaches; `None` when no
    /// plugin from there on taps it.
    pub fn next_tapped(&self, kind: HookKind, from: usize) -> (r: Option<usize>)
        ensures
            match r {
                Some(i) => is_next_tapped(self.view_descriptors(), kind, from as int, i as int),
                None => forall|j: int| from <= j < self.view_descriptors().len() ==> !taps(
                    #[trigger] self.view_descriptors()[j],
                    kind,
                ),
            },
    {
        let mut i: usize = from;
        while i < self.entries.len()
            invariant
                from <= i,
                forall|j: int| from <= j < i && j < self.entries@.len() ==> !taps(#[trigger] self.entries@[j], kind),
            decreases self.entries.len() - i,
        {
            if hook_taps(&self.entries[i], kind) {
                return Some(i);
            }
            i += 1;
        }
        None
    }

    /// A hook's answer where no patch matters: an abort becomes `HookAborted` with its
    /// reason, anything else goes on.
    pub fn expect_continue(result: HookOutcome<()>) -> (r: Result<(), AgentError>)
        ensures
            match result {
                HookOutcome::Abort { reason } => r matches Err(e) && aborted_error(e, reason@),
                _ => r is Ok,
            },
    {
        match result {
            HookOutcome::Continue => Ok(()),
            HookOutcome::ContinueWith(()) => Ok(()),
            HookOutcome::Abort { reason } => Err(AgentError::new(AgentErrorCode::HookAborted, reason)),
        }
    }

    /// Folds a turn-start answer into the dynamic sections: a patch appends its sections,
    /// an abort stops the hook.
    pub fn fold_turn_start(sections: &mut Vec<String>, outcome: HookOutcome<TurnStartPatch>) -> (r: Result<(), AgentError>)
        ensures
            match outcome {
                HookOutcome::Continue => r is Ok && final(sections)@ == old(sections)@,
                HookOutcome::ContinueWith(patch) => r is Ok && final(sections)@ == old(sections)@
                    + patch.append_dynamic_sections@,
                HookOutcome::Abort { reason } => (r matches Err(e) && aborted_error(e, reason@)) && final(sections)@
                    == old(sections)@,
            },
    {
        match outcome {
            HookOutcome::Continue => Ok(()),
            HookOutcome::ContinueWith(patch) => {
                let mut more = patch.append_dynamic_sections;
                sections.append(&mut more);
                Ok(())
            },
            HookOutcome::Abort { reason } => Err(AgentError::new(AgentErrorCode::HookAborted, reason)),
        }
    }

    /// Folds a before-tool-use answer into the arguments: a patch replaces them, an abort
    /// stops the hook.
    pub fn fold_before_tool_use(arguments: Value, outcome: HookOutcome<BeforeToolUsePatch>) -> (r: Result<Value, AgentError>)
        ensures
            match outcome {
                HookOutcome::Continue => r == Ok::<Value, AgentError>(arguments),
                HookOutcome::ContinueWith(patch) => r == Ok::<Value, AgentError>(patch.arguments),
                HookOutcome::Abort { reason } => r matches Err(e) && aborted_error(e, reason@),
            },
    {
        match outcome {
            HookOutcome::Continue => Ok(arguments),
            HookOutcome::ContinueWith(patch) => Ok(patch.arguments),
            HookOutcome::Abort { reason } => Err(AgentError::new(AgentErrorCode::HookAborted, reason)),
        }
    }
}

} // verus!
