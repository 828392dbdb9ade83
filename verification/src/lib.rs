//! A tiered caching library: a backend capability contract, a tenant-scoping
//! decorator, and a two-level read-promote / write-through coordinator, with
//! the helpers that concrete key-value backends build on.

pub mod cache;
pub mod config;
pub mod decimal;
pub mod llm_providers;
pub mod prompt_provider;
pub mod prompts;
