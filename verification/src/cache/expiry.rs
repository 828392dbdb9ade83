//! Time-to-live rules shared by the concrete backends: what a valid TTL
//! configuration is, when a stored entry counts as live, and how a write
//! computes the entry's expiry instant.

use vstd::prelude::*;
use vstd::string::StringExecFns;

use crate::cache::CacheError;

verus! {

/// A backend may only be configured with a strictly positive TTL.
pub open spec fn ttl_is_valid(ttl_secs: u64) -> bool {
    ttl_secs > 0
}

/// An entry with expiry instant `expires_at` is live at instant `now`
/// (both in seconds since the epoch).
pub open spec fn entry_is_live(expires_at: i64, now: i64) -> bool {
    now < expires_at
}

/// Checks a TTL configuration, accepting exactly the strictly positive ones.
pub fn validate_ttl(ttl_secs: u64) -> (r: Result<u64, CacheError>)
    ensures
        match r {
            Ok(t) => ttl_is_valid(ttl_secs) && t == ttl_secs,
            Err(e) => {
                &&& !ttl_is_valid(ttl_secs)
                &&& e matches CacheError::InvalidConfig(m) && m@ == "TTL must be greater than zero"@
            },
        },
{
    if ttl_secs == 0 {
        Err(CacheError::InvalidConfig(String::from_str("TTL must be greater than zero")))
    } else {
        Ok(ttl_secs)
    }
}

/// The expiry instant of an entry written at `now` with the given TTL,
/// saturating at the far end of the representable range.
pub fn compute_expires_at(now: i64, ttl_secs: u64) -> (r: i64)
    requires
        0 <= now,
    ensures
        now + ttl_secs <= i64::MAX ==> r == now + ttl_secs,
        now + ttl_secs > i64::MAX ==> r == i64::MAX,
{
    if ttl_secs <= (i64::MAX - now) as u64 {
        now + ttl_secs as i64
    } else {
        i64::MAX
    }
}

/// Whether an entry with the given expiry is live at `now`; this is the
/// check a backend performs on every read when it stores expiry explicitly.
pub fn is_live(expires_at: i64, now: i64) -> (r: bool)
    ensures
        r == entry_is_live(expires_at, now),
{
    now < expires_at
}

/// A value written at `now` with a valid TTL is live immediately and is no
/// longer live at any instant at or past the end of its window. Because the
/// window depends only on the write's own instant and TTL, re-writing a key
/// opens a fresh window relative to the new write, and no other key's window
/// is affected.
pub proof fn lemma_ttl_window(now: i64, ttl_secs: u64)
    requires
        0 <= now,
        ttl_is_valid(ttl_secs),
        now + ttl_secs <= i64::MAX,
    ensures
        entry_is_live((now + ttl_secs) as i64, now),
        forall|t: i64|
            t >= now + ttl_secs ==> !(#[trigger] entry_is_live((now + ttl_secs) as i64, t)),
{
}

} // verus!
