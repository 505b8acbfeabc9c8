//! Skills: prompts that the user invokes with `/name`.

use vstd::prelude::*;

verus! {

/// A skill and the tools it needs.
#[derive(Debug, Clone, PartialEq, Eq)]
pub struct SkillDefinition {
    pub name: String,
    pub display_name: String,
    pub description: String,
    pub prompt: String,
    pub tool_dependencies: Vec<String>,
    pub allow_implicit_invocation: bool,
}

} // verus!
