//! The text-generation providers: the provider contract, a deterministic
//! test double, and the provider handles the service can be configured
//! with. The remote call itself is I/O and lives with the runtime; what
//! stands here is each provider's state and the logic that reads a
//! provider's reply.

pub mod gemini;
pub mod mock;
pub mod ollama;
pub mod openai;
pub mod openrouter;
pub mod traits;

pub use traits::LLMProvider;
