//! A handle for a locally hosted model server. Querying it is not wired
//! up; the handle exists so the service can be configured for it ahead of
//! that.

use vstd::prelude::*;
use vstd::string::StringExecFns;

use crate::llm_providers::traits::{LLMError, LLMProvider};

verus! {

/// The handle: a credential and a model name.
pub struct OllamaProvider {
    /// The credential presented to the model server.
    pub api_key: String,
    /// The model queries would name.
    pub model: String,
}

impl OllamaProvider {
    /// A handle for the given credential and model.
    pub fn new(api_key: String, model: String) -> (r: Self)
        ensures
            r.api_key == api_key,
            r.model == model,
    {
        OllamaProvider { api_key, model }
    }
}

impl LLMProvider for OllamaProvider {
    /// Always fails: queries to this provider are not wired up.
    fn query(&self, input: &str) -> (r: Result<String, LLMError>)
        ensures
            r matches Err(e) && e is Other,
    {
        Err(LLMError::Other(String::from_str("the Ollama provider cannot serve queries")))
    }
}

} // verus!
