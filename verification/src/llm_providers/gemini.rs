//! The logic that reads a Gemini-style generation reply. The HTTP exchange
//! and its JSON encoding are I/O and live with the runtime; once a reply
//! is decoded into the plain candidate structure below, the text served to
//! the caller is chosen here, with a contract.

use vstd::prelude::*;
use vstd::string::StringExecFns;

use crate::llm_providers::traits::LLMError;

verus! {

/// One piece of a candidate's content: a run of text.
pub struct GeminiPart {
    /// The text of this piece.
    pub text: String,
}

/// One candidate reply of a generation response.
pub struct GeminiCandidate {
    /// The candidate's content, in order.
    pub parts: Vec<GeminiPart>,
}

/// Chooses the text a generation response answers with: the first part of
/// the first candidate. A response with no candidate, or whose first
/// candidate has no part, is a malformed reply.
pub fn extract_first_text(candidates: &Vec<GeminiCandidate>) -> (r: Result<String, LLMError>)
    ensures
        match r {
            Ok(t) => {
                &&& candidates@.len() > 0
                &&& candidates@[0].parts@.len() > 0
                &&& t@ == candidates@[0].parts@[0].text@
            },
            Err(e) => {
                &&& candidates@.len() == 0 || candidates@[0].parts@.len() == 0
                &&& e is InvalidResponse
            },
        },
{
    if candidates.len() == 0 {
        return Err(LLMError::InvalidResponse(String::from_str("No response from Gemini")));
    }
    let first = &candidates[0];
    if first.parts.len() == 0 {
        return Err(LLMError::InvalidResponse(String::from_str("No response from Gemini")));
    }
    Ok(first.parts[0].text.clone())
}

} // verus!
