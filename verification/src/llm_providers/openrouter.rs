//! A handle for a model-routing API. Querying it is not wired
//! up; the handle exists so the service can be configured for it ahead of
//! that.

use vstd::prelude::*;
use vstd::string::StringExecFns;

use crate::llm_providers::traits::{LLMError, LLMProvider};

verus! {

/// The handle: a credential and a model name.
pub struct OpenRouterProvider {
    /// The credential presented to the API.
    pub api_key: String,
    /// The model queries would name.
    pub model: String,
}

impl OpenRouterProvider {
    /// A handle for the given credential and model.
    pub fn new(api_key: String, model: String) -> (r: Self)
        ensures
            r.api_key == api_key,
            r.model == model,
    {
        OpenRouterProvider { api_key, model }
    }
}

impl LLMProvider for OpenRouterProvider {
    /// Always fails: queries to this provider are not wired up.
    fn query(&self, input: &str) -> (r: Result<String, LLMError>)
        ensures
            r matches Err(e) && e is Other,
    {
        Err(LLMError::Other(String::from_str("the OpenRouter provider cannot serve queries")))
    }
}

} // verus!
