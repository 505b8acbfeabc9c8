//! What a plugin declares about itself.

use vstd::prelude::*;
use crate::domain::hook::HookKind;

verus! {

/// A plugin's identity and the hooks it taps.
#[derive(Debug, Clone, PartialEq, Eq)]
pub struct PluginDescriptor {
    pub id: String,
    pub display_name: String,
    pub description: String,
    pub tapped_hooks: Vec<HookKind>,
}

} // verus!
