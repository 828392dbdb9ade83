//! The two-level coordinator: reads consult L1 first and fall back to L2,
//! promoting an L2 hit into L1 best-effort; writes go through both tiers,
//! failing fast if L1 rejects the write. The policy's decisions stand alone
//! as step functions, so that a runtime driving backends over a network can
//! take the same decisions this module takes.

use vstd::prelude::*;

use crate::cache::CacheError;
use crate::cache::traits::CacheLayer;

verus! {

/// What follows the L1 lookup of a read.
pub enum L1Decision<E> {
    /// The read is decided: an L1 hit's value, or a propagated L1 failure.
    Serve(Result<Option<String>, E>),
    /// L1 missed; consult L2.
    CheckL2,
}

/// What follows the L2 lookup of a read.
pub enum L2Decision<E> {
    /// The read is decided: a miss in both tiers, or a propagated L2
    /// failure.
    Serve(Result<Option<String>, E>),
    /// L2 hit: warm L1 with this value best-effort, then serve it.
    Promote(String),
}

/// Decides a read after the L1 lookup: a hit is served as found (L1 is
/// authoritative — L2 is not consulted), a miss sends the read to L2, and
/// an L1 failure propagates.
pub fn decide_after_l1<E>(looked_up: Result<Option<String>, E>) -> (d: L1Decision<E>)
    ensures
        match looked_up {
            Ok(Some(v)) => d == L1Decision::Serve(Ok::<Option<String>, E>(Some(v))),
            Ok(None) => d == L1Decision::<E>::CheckL2,
            Err(e) => d == L1Decision::Serve(Err::<Option<String>, E>(e)),
        },
{
    match looked_up {
        Ok(Some(v)) => L1Decision::Serve(Ok(Some(v))),
        Ok(None) => L1Decision::CheckL2,
        Err(e) => L1Decision::Serve(Err(e)),
    }
}

/// Decides a read after the L2 lookup: a hit is promoted into L1 and
/// served, a miss makes the read an absence, and an L2 failure propagates.
pub fn decide_after_l2<E>(looked_up: Result<Option<String>, E>) -> (d: L2Decision<E>)
    ensures
        match looked_up {
            Ok(Some(v)) => d == L2Decision::<E>::Promote(v),
            Ok(None) => d == L2Decision::Serve(Ok::<Option<String>, E>(None)),
            Err(e) => d == L2Decision::Serve(Err::<Option<String>, E>(e)),
        },
{
    match looked_up {
        Ok(Some(v)) => L2Decision::Promote(v),
        Ok(None) => L2Decision::Serve(Ok(None)),
        Err(e) => L2Decision::Serve(Err(e)),
    }
}

/// Decides a read once the best-effort warm write of a promoted value has
/// finished: the promoted value is served whatever the warm write's
/// outcome — a failure to warm L1 is swallowed, never propagated.
pub fn decide_after_warm<E, F>(value: String, warmed: Result<(), F>) -> (r: Result<
    Option<String>,
    E,
>)
    ensures
        r == Ok::<Option<String>, E>(Some(value)),
{
    Ok(Some(value))
}

/// Composes two backends into a read-promote / write-through pair: L1 the
/// fast tier, L2 the slower or more durable one. The coordinator holds no
/// state beyond the two backends and does no TTL bookkeeping of its own.
pub struct CacheManager<L1: CacheLayer, L2: CacheLayer> {
    /// The fast tier, consulted first on every read.
    pub l1: L1,
    /// The slow tier, consulted only on an L1 miss.
    pub l2: L2,
}

impl<L1: CacheLayer, L2: CacheLayer> CacheManager<L1, L2> {
    /// Both tiers are well-formed.
    pub open spec fn inv(&self) -> bool {
        self.l1.inv() && self.l2.inv()
    }

    /// Pairs the two backends, L1 first.
    pub fn new(l1: L1, l2: L2) -> (r: Self)
        ensures
            r.l1 == l1,
            r.l2 == l2,
    {
        CacheManager { l1, l2 }
    }

    /// Reads `key`: L1 first, and on an L1 miss L2, writing an L2 hit back
    /// into L1 best-effort. The first hit wins; an L1 hit never consults
    /// L2; a failure of either lookup propagates; only the warm write's
    /// failure is swallowed, so after a promoted read L1 either holds the
    /// served value or is unchanged.
    pub fn get(&mut self, key: &str) -> (r: Result<Option<String>, CacheError>)
        requires
            old(self).inv(),
        ensures
            final(self).inv(),
            final(self).l2.contents() == old(self).l2.contents(),
            match r {
                Ok(Some(v)) => {
                    ||| {
                        &&& old(self).l1.contents().contains_key(key@)
                        &&& v@ == old(self).l1.contents()[key@]
                        &&& final(self).l1.contents() == old(self).l1.contents()
                    }
                    ||| {
                        &&& !old(self).l1.contents().contains_key(key@)
                        &&& old(self).l2.contents().contains_key(key@)
                        &&& v@ == old(self).l2.contents()[key@]
                        &&& {
                            ||| final(self).l1.contents() == old(self).l1.contents().insert(
                                key@,
                                v@,
                            )
                            ||| final(self).l1.contents() == old(self).l1.contents()
                        }
                    }
                },
                Ok(None) => {
                    &&& !old(self).l1.contents().contains_key(key@)
                    &&& !old(self).l2.contents().contains_key(key@)
                    &&& final(self).l1.contents() == old(self).l1.contents()
                },
                Err(_) => final(self).l1.contents() == old(self).l1.contents(),
            },
    {
        match decide_after_l1(self.l1.get(key)) {
            L1Decision::Serve(r) => r,
            L1Decision::CheckL2 => match decide_after_l2(self.l2.get(key)) {
                L2Decision::Serve(r) => r,
                L2Decision::Promote(v) => {
                    let warmed = self.l1.set(key, v.as_str());
                    decide_after_warm(v, warmed)
                },
            },
        }
    }

    /// Writes `key` to both tiers: L1 first, then L2. If the L1 write
    /// fails, it propagates at once and L2 is not attempted; if L1 succeeds
    /// and L2 fails, the L2 failure propagates and the value already
    /// written to L1 remains visible — the tiers may then disagree.
    pub fn set(&mut self, key: &str, value: &str) -> (r: Result<(), CacheError>)
        requires
            old(self).inv(),
        ensures
            final(self).inv(),
            match r {
                Ok(_) => {
                    &&& final(self).l1.contents() == old(self).l1.contents().insert(key@, value@)
                    &&& final(self).l2.contents() == old(self).l2.contents().insert(key@, value@)
                },
                Err(_) => {
                    ||| {
                        &&& final(self).l1.contents() == old(self).l1.contents()
                        &&& final(self).l2.contents() == old(self).l2.contents()
                    }
                    ||| {
                        &&& final(self).l1.contents() == old(self).l1.contents().insert(
                            key@,
                            value@,
                        )
                        &&& final(self).l2.contents() == old(self).l2.contents()
                    }
                },
            },
    {
        match self.l1.set(key, value) {
            Err(e) => Err(e),
            Ok(_) => match self.l2.set(key, value) {
                Err(e) => Err(e),
                Ok(_) => Ok(()),
            },
        }
    }
}

} // verus!
