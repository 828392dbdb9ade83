//! The caching abstraction: the backend contract, the tenant-scoping
//! decorator, the two-level coordinator, and the error taxonomy they share.

pub mod expiry;
pub mod traits;
pub mod mock_cache;
pub mod tenant;
pub mod manager;

pub use tenant::TenantCache;
pub use traits::CacheLayer;

use vstd::prelude::*;

verus! {

/// Every failure a cache backend can surface, kept apart so that callers can
/// tell transient infrastructure trouble from a configuration or usage bug.
#[derive(Debug)]
pub enum CacheError {
    /// The embedded relational store reported a failure.
    SQLite(String),
    /// The networked key-value store reported a protocol-level failure.
    Redis(String),
    /// The networked store's connection pool was unavailable or exhausted.
    RedisPool(String),
    /// A value could not be encoded or decoded.
    Serialization(String),
    /// The cache was configured with invalid parameters.
    InvalidConfig(String),
    /// The backend does not support the requested contract operation.
    Unsupported(String),
}

} // verus!
