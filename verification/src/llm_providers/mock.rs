//! A deterministic provider used as a test double: it echoes the prompt
//! back inside a fixed phrase and never fails.

use vstd::prelude::*;
use vstd::string::StringExecFns;

use crate::llm_providers::traits::{LLMError, LLMProvider};

verus! {

/// The test double; it holds no state.
pub struct MockLLMProvider;

impl MockLLMProvider {
    /// A fresh test double.
    pub fn new() -> (r: Self) {
        MockLLMProvider {  }
    }
}

impl LLMProvider for MockLLMProvider {
    /// Replies with the prompt echoed inside a fixed phrase; never fails.
    fn query(&self, input: &str) -> (r: Result<String, LLMError>)
        ensures
            match r {
                Ok(v) => v@ == "Mock response for input: "@ + input@,
                Err(_) => false,
            },
    {
        let mut s = String::from_str("Mock response for input: ");
        s.append(input);
        Ok(s)
    }
}

} // verus!
