//! An in-memory backend used as a test double: it keeps its entries in a
//! vector of pairs, supports only `get` and `set`, fails every other
//! contract operation with an `Unsupported` error, and counts how often its
//! two supported operations were called.

use vstd::prelude::*;
use vstd::string::StringExecFns;

use crate::cache::CacheError;
use crate::cache::traits::CacheLayer;

verus! {

/// The map denoted by a sequence of key/value pairs, later pairs overriding
/// earlier ones.
pub open spec fn map_of(entries: Seq<(String, String)>) -> Map<Seq<char>, Seq<char>>
    decreases entries.len(),
{
    if entries.len() == 0 {
        Map::empty()
    } else {
        map_of(entries.drop_last()).insert(entries.last().0@, entries.last().1@)
    }
}

/// Whether the keys of a sequence of pairs are pairwise distinct.
pub open spec fn distinct_keys(entries: Seq<(String, String)>) -> bool {
    forall|a: int, b: int|
        0 <= a < b < entries.len() ==> (#[trigger] entries[a]).0@ != (#[trigger] entries[b]).0@
}

/// A key is in the denoted map exactly when some pair of the sequence
/// carries it.
proof fn lemma_map_of_contains(entries: Seq<(String, String)>, k: Seq<char>)
    ensures
        map_of(entries).contains_key(k) <==> exists|i: int|
            0 <= i < entries.len() && (#[trigger] entries[i]).0@ == k,
    decreases entries.len(),
{
    if entries.len() > 0 {
        lemma_map_of_contains(entries.drop_last(), k);
        assert(forall|i: int|
            0 <= i < entries.len() - 1 ==> #[trigger] entries.drop_last()[i] == entries[i]);
        if map_of(entries).contains_key(k) {
            if entries.last().0@ == k {
                assert(entries[entries.len() - 1].0@ == k);
            }
        }
        if exists|i: int| 0 <= i < entries.len() && (#[trigger] entries[i]).0@ == k {
            let i = choose|i: int| 0 <= i < entries.len() && (#[trigger] entries[i]).0@ == k;
            if i < entries.len() - 1 {
                assert(entries.drop_last()[i].0@ == k);
            }
        }
    }
}

/// With distinct keys, the denoted map sends each pair's key to that pair's
/// value.
proof fn lemma_map_of_lookup(entries: Seq<(String, String)>, i: int)
    requires
        distinct_keys(entries),
        0 <= i < entries.len(),
    ensures
        map_of(entries).contains_key(entries[i].0@),
        map_of(entries)[entries[i].0@] == entries[i].1@,
    decreases entries.len(),
{
    if i < entries.len() - 1 {
        assert(forall|j: int|
            0 <= j < entries.len() - 1 ==> #[trigger] entries.drop_last()[j] == entries[j]);
        lemma_map_of_lookup(entries.drop_last(), i);
        assert(entries[i].0@ != entries[entries.len() - 1].0@);
    }
}

/// Removing a pair removes exactly its key from the denoted map, provided
/// keys are distinct.
proof fn lemma_map_of_remove(entries: Seq<(String, String)>, i: int)
    requires
        distinct_keys(entries),
        0 <= i < entries.len(),
    ensures
        map_of(entries.remove(i)) == map_of(entries).remove(entries[i].0@),
    decreases entries.len(),
{
    let k = entries[i].0@;
    if i == entries.len() - 1 {
        assert(entries.remove(i) =~= entries.drop_last());
        lemma_map_of_contains(entries.drop_last(), k);
        assert(forall|j: int|
            0 <= j < entries.len() - 1 ==> #[trigger] entries.drop_last()[j] == entries[j]);
        assert(!map_of(entries.drop_last()).contains_key(k));
        assert(map_of(entries.drop_last()) =~= map_of(entries).remove(k));
    } else {
        assert(forall|j: int|
            0 <= j < entries.len() - 1 ==> #[trigger] entries.drop_last()[j] == entries[j]);
        lemma_map_of_remove(entries.drop_last(), i);
        assert(entries.remove(i).drop_last() =~= entries.drop_last().remove(i));
        assert(entries.remove(i).last() == entries.last());
        assert(entries.last().0@ != k);
        assert(map_of(entries.remove(i)) == map_of(entries.drop_last().remove(i)).insert(
            entries.last().0@,
            entries.last().1@,
        ));
        assert(map_of(entries).remove(k) =~= map_of(entries.drop_last()).remove(k).insert(
            entries.last().0@,
            entries.last().1@,
        ));
    }
}

/// The in-memory test backend. Only `get` and `set` are supported; every
/// other operation of the contract fails with `Unsupported`.
#[derive(Debug, Clone)]
pub struct MockCache {
    /// The stored entries, as key/value pairs with pairwise distinct keys.
    pub data: Vec<(String, String)>,
    /// How many times `get` has been called (saturating).
    pub get_calls: usize,
    /// How many times `set` has been called (saturating).
    pub set_calls: usize,
}

impl MockCache {
    /// A fresh, empty mock backend with zeroed call counters.
    pub fn new() -> (r: MockCache)
        ensures
            r.inv(),
            r.contents() == Map::<Seq<char>, Seq<char>>::empty(),
            r.get_calls == 0,
            r.set_calls == 0,
    {
        MockCache { data: Vec::new(), get_calls: 0, set_calls: 0 }
    }

    /// The index of the pair carrying `key`, if any.
    fn find_index(&self, key: &str) -> (r: Option<usize>)
        ensures
            match r {
                Some(i) => i < self.data@.len() && self.data@[i as int].0@ == key@,
                None => forall|j: int|
                    0 <= j < self.data@.len() ==> (#[trigger] self.data@[j]).0@ != key@,
            },
    {
        let k = String::from_str(key);
        let mut i: usize = 0;
        while i < self.data.len()
            invariant
                i <= self.data@.len(),
                k@ == key@,
                forall|j: int| 0 <= j < i ==> (#[trigger] self.data@[j]).0@ != key@,
            decreases self.data@.len() - i,
        {
            if self.data[i].0 == k {
                return Some(i);
            }
            i = i + 1;
        }
        None
    }
}

impl Default for MockCache {
    /// A fresh, empty mock backend with zeroed call counters.
    fn default() -> (r: MockCache)
        ensures
            r.inv(),
            r.contents() == Map::<Seq<char>, Seq<char>>::empty(),
            r.get_calls == 0,
            r.set_calls == 0,
    {
        MockCache::new()
    }
}

impl CacheLayer for MockCache {
    /// The denoted map of the stored pairs.
    closed spec fn contents(&self) -> Map<Seq<char>, Seq<char>> {
        map_of(self.data@)
    }

    /// The stored pairs carry pairwise distinct keys.
    closed spec fn inv(&self) -> bool {
        distinct_keys(self.data@)
    }

    fn get(&mut self, key: &str) -> (r: Result<Option<String>, CacheError>)
        ensures
            r is Ok,
    {
        if self.get_calls < usize::MAX {
            self.get_calls = self.get_calls + 1;
        }
        match self.find_index(key) {
            Some(i) => {
                proof {
                    lemma_map_of_lookup(self.data@, i as int);
                }
                Ok(Some(self.data[i].1.clone()))
            },
            None => {
                proof {
                    lemma_map_of_contains(self.data@, key@);
                }
                Ok(None)
            },
        }
    }

    fn set(&mut self, key: &str, value: &str) -> (r: Result<(), CacheError>)
        ensures
            r is Ok,
    {
        if self.set_calls < usize::MAX {
            self.set_calls = self.set_calls + 1;
        }
        let ghost entries0 = self.data@;
        match self.find_index(key) {
            Some(i) => {
                proof {
                    lemma_map_of_remove(entries0, i as int);
                }
                self.data.remove(i);
                proof {
                    assert forall|a: int, b: int|
                        0 <= a < b < self.data@.len() implies (#[trigger] self.data@[a]).0@ != (
                    #[trigger] self.data@[b]).0@ by {
                        let a0 = if a < i { a } else { a + 1 };
                        let b0 = if b < i { b } else { b + 1 };
                        assert(self.data@[a] == entries0[a0]);
                        assert(self.data@[b] == entries0[b0]);
                    }
                    assert forall|j: int|
                        0 <= j < self.data@.len() implies (#[trigger] self.data@[j]).0@
                        != key@ by {
                        let j0 = if j < i { j } else { j + 1 };
                        assert(self.data@[j] == entries0[j0]);
                        if entries0[j0].0@ == key@ {
                            if j0 < i {
                                assert(entries0[j0].0@ != entries0[i as int].0@);
                            } else {
                                assert(entries0[i as int].0@ != entries0[j0].0@);
                            }
                        }
                    }
                }
            },
            None => {},
        }
        let ghost entries1 = self.data@;
        self.data.push((String::from_str(key), String::from_str(value)));
        proof {
            assert(self.data@.drop_last() =~= entries1);
            assert(map_of(self.data@) == map_of(entries1).insert(key@, value@));
            assert(map_of(self.data@) =~= map_of(entries0).insert(key@, value@));
            assert forall|a: int, b: int|
                0 <= a < b < self.data@.len() implies (#[trigger] self.data@[a]).0@ != (
            #[trigger] self.data@[b]).0@ by {
                if b == self.data@.len() - 1 {
                    assert(self.data@[a] == entries1[a]);
                    assert(entries1[a].0@ != key@);
                } else {
                    assert(self.data@[a] == entries1[a]);
                    assert(self.data@[b] == entries1[b]);
                }
            }
        }
        Ok(())
    }

    fn delete(&mut self, key: &str) -> (r: Result<(), CacheError>)
        ensures
            r matches Err(CacheError::Unsupported(_)),
    {
        Err(CacheError::Unsupported(String::from_str("the mock backend does not support delete")))
    }

    fn key_exists(&mut self, key: &str) -> (r: Result<bool, CacheError>)
        ensures
            r matches Err(CacheError::Unsupported(_)),
    {
        Err(
            CacheError::Unsupported(
                String::from_str("the mock backend does not support existence checks"),
            ),
        )
    }

    fn set_if_absent(&mut self, key: &str, value: &str) -> (r: Result<bool, CacheError>)
        ensures
            r matches Err(CacheError::Unsupported(_)),
    {
        Err(
            CacheError::Unsupported(
                String::from_str("the mock backend does not support set_if_absent"),
            ),
        )
    }

    fn update(&mut self, key: &str, value: &str) -> (r: Result<(), CacheError>)
        ensures
            r matches Err(CacheError::Unsupported(_)),
    {
        Err(CacheError::Unsupported(String::from_str("the mock backend does not support update")))
    }

    fn compare_and_swap(&mut self, key: &str, expected: &str, new_value: &str) -> (r: Result<
        bool,
        CacheError,
    >)
        ensures
            r matches Err(CacheError::Unsupported(_)),
    {
        Err(
            CacheError::Unsupported(
                String::from_str("the mock backend does not support compare_and_swap"),
            ),
        )
    }

    fn bulk_get(&mut self, keys: &[&str]) -> (r: Result<Vec<Option<String>>, CacheError>)
        ensures
            r matches Err(CacheError::Unsupported(_)),
    {
        Err(CacheError::Unsupported(String::from_str("the mock backend does not support bulk_get")))
    }

    fn bulk_set(&mut self, items: &[(&str, &str)]) -> (r: Result<(), CacheError>)
        ensures
            r matches Err(CacheError::Unsupported(_)),
    {
        proof {
            let batch = crate::cache::traits::pairs_view(items@);
            assert(batch.take(0).len() == 0);
            assert(crate::cache::traits::seq_upsert(self.contents(), batch.take(0))
                == self.contents());
        }
        Err(CacheError::Unsupported(String::from_str("the mock backend does not support bulk_set")))
    }

    fn atomic_increment(&mut self, key: &str) -> (r: Result<i64, CacheError>)
        ensures
            r matches Err(CacheError::Unsupported(_)),
    {
        Err(
            CacheError::Unsupported(
                String::from_str("the mock backend does not support atomic counters"),
            ),
        )
    }

    fn atomic_decrement(&mut self, key: &str) -> (r: Result<i64, CacheError>)
        ensures
            r matches Err(CacheError::Unsupported(_)),
    {
        Err(
            CacheError::Unsupported(
                String::from_str("the mock backend does not support atomic counters"),
            ),
        )
    }

    fn flush(&mut self) -> (r: Result<(), CacheError>)
        ensures
            r matches Err(CacheError::Unsupported(_)),
    {
        Err(CacheError::Unsupported(String::from_str("the mock backend does not support flush")))
    }
}

} // verus!
