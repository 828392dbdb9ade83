//! Profile-driven prompt serving. A profile names a provider, a model and
//! a system prompt; loading profiles from disk and building the concrete
//! provider for one are runtime work (files, TOML, provider tuning knobs),
//! while serving prompts through a tenant-scoped cache pair, and the rule
//! for which providers a profile may name, stand here.

pub mod prompt_provider;

use vstd::prelude::*;
use vstd::string::StringExecFns;

verus! {

/// Whether a profile's provider name is one the factory can build; only
/// the Gemini provider is.
pub fn provider_is_supported(name: &str) -> (r: bool)
    ensures
        r == (name@ == "gemini"@),
{
    String::from_str(name) == String::from_str("gemini")
}

} // verus!
