//! The backend contract: the capability set every cache backend implements,
//! specified against a mathematical view of the backend's live contents as a
//! map from keys to values.

use vstd::prelude::*;

use crate::cache::CacheError;
use crate::decimal::{dec_string_of, i64_string_value};

verus! {

/// The view of a batch of key/value pairs as sequences of characters.
pub open spec fn pairs_view(items: Seq<(&str, &str)>) -> Seq<(Seq<char>, Seq<char>)> {
    items.map_values(|p: (&str, &str)| (p.0@, p.1@))
}

/// The contents of a backend after writing a batch of pairs in order:
/// each pair is an insert-or-replace, later pairs overriding earlier ones.
pub open spec fn seq_upsert(
    m: Map<Seq<char>, Seq<char>>,
    items: Seq<(Seq<char>, Seq<char>)>,
) -> Map<Seq<char>, Seq<char>>
    decreases items.len(),
{
    if items.len() == 0 {
        m
    } else {
        seq_upsert(m, items.drop_last()).insert(items.last().0, items.last().1)
    }
}

/// The capability contract every cache backend satisfies. A backend's live
/// contents are modelled by `contents()`; every operation says how its result
/// and the new contents relate to the old ones. Failures are always allowed
/// (a store may be unreachable, or may not support an operation), but a
/// failed operation never changes the contents it reports, except for a bulk
/// write, which may have written a prefix of its batch before failing.
pub trait CacheLayer: Sized {
    /// The live entries of this backend, as key-to-value map.
    spec fn contents(&self) -> Map<Seq<char>, Seq<char>>;

    /// The backend's internal well-formedness condition.
    spec fn inv(&self) -> bool;

    /// Returns the value stored under `key`, or `None` if no live entry
    /// exists; absence is not an error.
    fn get(&mut self, key: &str) -> (r: Result<Option<String>, CacheError>)
        requires
            old(self).inv(),
        ensures
            final(self).inv(),
            final(self).contents() == old(self).contents(),
            match r {
                Ok(Some(v)) => old(self).contents().contains_key(key@) && v@ == old(
                    self,
                ).contents()[key@],
                Ok(None) => !old(self).contents().contains_key(key@),
                Err(_) => true,
            },
    ;

    /// Unconditional insert-or-replace; a fresh TTL window starts for `key`.
    fn set(&mut self, key: &str, value: &str) -> (r: Result<(), CacheError>)
        requires
            old(self).inv(),
        ensures
            final(self).inv(),
            match r {
                Ok(_) => final(self).contents() == old(self).contents().insert(key@, value@),
                Err(_) => final(self).contents() == old(self).contents(),
            },
    ;

    /// Removes the entry under `key` if present; absence is not an error.
    fn delete(&mut self, key: &str) -> (r: Result<(), CacheError>)
        requires
            old(self).inv(),
        ensures
            final(self).inv(),
            match r {
                Ok(_) => final(self).contents() == old(self).contents().remove(key@),
                Err(_) => final(self).contents() == old(self).contents(),
            },
    ;

    /// Reports whether a live entry exists under `key`.
    fn key_exists(&mut self, key: &str) -> (r: Result<bool, CacheError>)
        requires
            old(self).inv(),
        ensures
            final(self).inv(),
            final(self).contents() == old(self).contents(),
            match r {
                Ok(b) => b == old(self).contents().contains_key(key@),
                Err(_) => true,
            },
    ;

    /// Inserts only if no live entry exists under `key`; reports whether the
    /// insert happened. Atomic with respect to concurrent callers on the
    /// same backend.
    fn set_if_absent(&mut self, key: &str, value: &str) -> (r: Result<bool, CacheError>)
        requires
            old(self).inv(),
        ensures
            final(self).inv(),
            match r {
                Ok(true) => !old(self).contents().contains_key(key@) && final(self).contents()
                    == old(self).contents().insert(key@, value@),
                Ok(false) => old(self).contents().contains_key(key@) && final(self).contents()
                    == old(self).contents(),
                Err(_) => final(self).contents() == old(self).contents(),
            },
    ;

    /// Replaces the value only if a live entry already exists under `key`;
    /// fails if no such entry exists.
    fn update(&mut self, key: &str, value: &str) -> (r: Result<(), CacheError>)
        requires
            old(self).inv(),
        ensures
            final(self).inv(),
            match r {
                Ok(_) => old(self).contents().contains_key(key@) && final(self).contents() == old(
                    self,
                ).contents().insert(key@, value@),
                Err(_) => final(self).contents() == old(self).contents(),
            },
    ;

    /// Atomically replaces the value under `key` only if the current value
    /// equals `expected`; reports whether the swap happened.
    fn compare_and_swap(&mut self, key: &str, expected: &str, new_value: &str) -> (r: Result<
        bool,
        CacheError,
    >)
        requires
            old(self).inv(),
        ensures
            final(self).inv(),
            match r {
                Ok(true) => old(self).contents().contains_key(key@) && old(self).contents()[key@]
                    == expected@ && final(self).contents() == old(self).contents().insert(
                    key@,
                    new_value@,
                ),
                Ok(false) => (!old(self).contents().contains_key(key@) || old(
                    self,
                ).contents()[key@] != expected@) && final(self).contents() == old(self).contents(),
                Err(_) => final(self).contents() == old(self).contents(),
            },
    ;

    /// Looks up every key of the batch; the result aligns with the input
    /// order, one entry per key.
    fn bulk_get(&mut self, keys: &[&str]) -> (r: Result<Vec<Option<String>>, CacheError>)
        requires
            old(self).inv(),
        ensures
            final(self).inv(),
            final(self).contents() == old(self).contents(),
            match r {
                Ok(vs) => vs@.len() == keys@.len() && forall|i: int|
                    0 <= i < keys@.len() ==> match #[trigger] vs@[i] {
                        Some(v) => old(self).contents().contains_key(keys@[i]@) && v@ == old(
                            self,
                        ).contents()[keys@[i]@],
                        None => !old(self).contents().contains_key(keys@[i]@),
                    },
                Err(_) => true,
            },
    ;

    /// Writes every pair of the batch in order, each as an
    /// insert-or-replace. A failed bulk write may still have written a
    /// prefix of the batch.
    fn bulk_set(&mut self, items: &[(&str, &str)]) -> (r: Result<(), CacheError>)
        requires
            old(self).inv(),
        ensures
            final(self).inv(),
            match r {
                Ok(_) => final(self).contents() == seq_upsert(
                    old(self).contents(),
                    pairs_view(items@),
                ),
                Err(_) => exists|n: int|
                    0 <= n <= items@.len() && final(self).contents() == seq_upsert(
                        old(self).contents(),
                        #[trigger] pairs_view(items@).take(n),
                    ),
            },
    ;

    /// Treats the value under `key` as a signed decimal counter and
    /// atomically adds one, storing and returning the new value; an absent
    /// key counts from zero.
    fn atomic_increment(&mut self, key: &str) -> (r: Result<i64, CacheError>)
        requires
            old(self).inv(),
        ensures
            final(self).inv(),
            match r {
                Ok(v) => {
                    &&& final(self).contents() == old(self).contents().insert(
                        key@,
                        dec_string_of(v as int),
                    )
                    &&& !old(self).contents().contains_key(key@) ==> v == 1
                    &&& old(self).contents().contains_key(key@) ==> match i64_string_value(
                        old(self).contents()[key@],
                    ) {
                        Some(n) => v == n + 1,
                        None => true,
                    }
                },
                Err(_) => final(self).contents() == old(self).contents(),
            },
    ;

    /// Treats the value under `key` as a signed decimal counter and
    /// atomically subtracts one, storing and returning the new value; an
    /// absent key counts from zero.
    fn atomic_decrement(&mut self, key: &str) -> (r: Result<i64, CacheError>)
        requires
            old(self).inv(),
        ensures
            final(self).inv(),
            match r {
                Ok(v) => {
                    &&& final(self).contents() == old(self).contents().insert(
                        key@,
                        dec_string_of(v as int),
                    )
                    &&& !old(self).contents().contains_key(key@) ==> v == -1
                    &&& old(self).contents().contains_key(key@) ==> match i64_string_value(
                        old(self).contents()[key@],
                    ) {
                        Some(n) => v == n - 1,
                        None => true,
                    }
                },
                Err(_) => final(self).contents() == old(self).contents(),
            },
    ;

    /// Removes every entry owned by this backend or scope.
    fn flush(&mut self) -> (r: Result<(), CacheError>)
        requires
            old(self).inv(),
        ensures
            final(self).inv(),
            match r {
                Ok(_) => final(self).contents() == Map::<Seq<char>, Seq<char>>::empty(),
                Err(_) => final(self).contents() == old(self).contents(),
            },
    ;
}

/// A successful `set(k, v)` followed by `get(k)` returns `v`, on any
/// backend: by `set`'s contract the contents become `insert(k, v)`, and by
/// `get`'s contract the call then returns the value mapped under `k`.
pub proof fn lemma_set_then_get(m: Map<Seq<char>, Seq<char>>, k: Seq<char>, v: Seq<char>)
    ensures
        m.insert(k, v).contains_key(k),
        m.insert(k, v)[k] == v,
{
}

/// A `get` on a backend with empty contents returns absent, whatever the
/// key: no key is in the empty map's domain. A backend starts this way, and
/// a successful `flush` leaves the contents this way, so every subsequent
/// `get` reports absence.
pub proof fn lemma_empty_get_absent(k: Seq<char>)
    ensures
        !Map::<Seq<char>, Seq<char>>::empty().contains_key(k),
{
}

/// Writes under pairwise distinct keys do not disturb one another: after a
/// batch of such writes, each key maps to exactly the value written for it,
/// so each round-trips through `get` independently.
pub proof fn lemma_disjoint_writes_round_trip(
    m: Map<Seq<char>, Seq<char>>,
    items: Seq<(Seq<char>, Seq<char>)>,
    i: int,
)
    requires
        forall|a: int, b: int|
            0 <= a < b < items.len() ==> (#[trigger] items[a]).0 != (#[trigger] items[b]).0,
        0 <= i < items.len(),
    ensures
        seq_upsert(m, items).contains_key(items[i].0),
        seq_upsert(m, items)[items[i].0] == items[i].1,
    decreases items.len(),
{
    if i == items.len() - 1 {
    } else {
        assert(items.drop_last()[i] == items[i]);
        lemma_disjoint_writes_round_trip(m, items.drop_last(), i);
        assert(items.last() == items[items.len() - 1]);
        assert(items[i].0 != items[items.len() - 1].0);
    }
}

} // verus!
