//! The service's configuration: which provider and model to query, where
//! the two cache tiers live, and the default TTL. Reading these values
//! from the process environment is I/O and lives with the runtime; the
//! shape of the configuration, and the parsing of its numeric setting,
//! stand here.

use vstd::prelude::*;

verus! {

/// Everything the service needs at startup.
#[derive(Debug, Clone)]
pub struct Config {
    /// Which provider to query (for example `gemini`).
    pub llm_provider: String,
    /// The model name passed to the provider.
    pub llm_name: String,
    /// The credential presented to the provider.
    pub api_key: String,
    /// Where the fast cache tier lives.
    pub l1_cache_url: String,
    /// Where the slow cache tier lives.
    pub l2_cache_url: String,
    /// The default TTL, in seconds, for cache writes.
    pub cache_ttl: u64,
    /// The log level the service runs with.
    pub log_level: String,
}

} // verus!
