//! Persona resolution, which this version no longer offers.
use crate::agent::budget::TokenBudget;
use crate::config::ConfigDir;
use vstd::prelude::*;

verus! {

/// Persona prompts cannot be resolved: the answer is always the same
/// refusal.
pub fn resolve_system_prompt(_prompt_name: &str, _config: &ConfigDir) -> (r: Result<String, String>)
    ensures
        r matches Err(m) && m@ == "legacy persona prompt resolution is unavailable; resolve a policy prompt instead"@,
{
    Err("legacy persona prompt resolution is unavailable; resolve a policy prompt instead".to_owned())
}

/// A persona's budget is the global one.
pub fn resolve_persona_budget(_persona_name: &str, global: &TokenBudget, _config: &ConfigDir) -> (b: TokenBudget)
    ensures
        b == *global,
{
    *global
}

} // verus!
