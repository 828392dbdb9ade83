//! The provider contract and the failures a provider can report.

use vstd::prelude::*;

verus! {

/// A text-generation provider: one operation, from a prompt to a reply.
/// What a remote model replies cannot be pinned down here; each provider's
/// own contract says what it guarantees.
pub trait LLMProvider: Sized {
    /// Produces a reply for `input`, or a distinguishable failure.
    fn query(&self, input: &str) -> (r: Result<String, LLMError>);
}

/// The failures a provider can report, kept apart so callers can tell a
/// transport problem from a malformed reply.
#[derive(Debug)]
pub enum LLMError {
    /// The provider could not be reached, or answered with a transport-level failure.
    Network(String),
    /// The provider answered, but the reply could not be read.
    InvalidResponse(String),
    /// Any other failure.
    Other(String),
}

} // verus!
