//! The tenant-scoping decorator: wraps any backend and rewrites every key to
//! `tenant:key` before delegating, so that tenants sharing one store never
//! collide. The decorator owns no storage; its contents are the inner
//! backend's contents seen through the tenant's prefix.

use vstd::prelude::*;
use vstd::string::StringExecFns;

use crate::cache::CacheError;
use crate::cache::traits::{CacheLayer, pairs_view, seq_upsert};
use crate::decimal::dec_string_of;

verus! {

/// The backend key that a tenant's key is rewritten to.
pub open spec fn scoped_key(tenant: Seq<char>, key: Seq<char>) -> Seq<char> {
    tenant + ":"@ + key
}

/// A backend's contents seen through one tenant's prefix: key `k` of the
/// scope maps to whatever the backend stores under `scoped_key(tenant, k)`.
pub open spec fn tenant_view(m: Map<Seq<char>, Seq<char>>, tenant: Seq<char>) -> Map<
    Seq<char>,
    Seq<char>,
> {
    Map::new(
        |k: Seq<char>| m.contains_key(scoped_key(tenant, k)),
        |k: Seq<char>| m[scoped_key(tenant, k)],
    )
}

/// Whether a tenant identifier is free of the separator character. Scoped
/// keys of different tenants are guaranteed distinct only for such tenants:
/// tenant `a` with key `b:c` and tenant `a:b` with key `c` rewrite to the
/// same backend key.
pub open spec fn colon_free(s: Seq<char>) -> bool {
    forall|i: int| 0 <= i < s.len() ==> s[i] != ':'
}

/// Builds the backend key for a tenant's key.
pub fn scoped_key_of(tenant: &str, key: &str) -> (r: String)
    ensures
        r@ == scoped_key(tenant@, key@),
{
    let mut s = String::from_str(tenant);
    s.append(":");
    s.append(key);
    s
}

/// For one tenant, distinct keys rewrite to distinct backend keys.
pub proof fn lemma_scoped_key_injective(t: Seq<char>, k1: Seq<char>, k2: Seq<char>)
    requires
        scoped_key(t, k1) == scoped_key(t, k2),
    ensures
        k1 == k2,
{
    reveal_strlit(":");
    let s1 = scoped_key(t, k1);
    let s2 = scoped_key(t, k2);
    assert(s1.len() == t.len() + 1 + k1.len());
    assert(k1.len() == k2.len());
    assert(k1 =~= k2) by {
        assert(forall|i: int|
            0 <= i < k1.len() ==> #[trigger] k1[i] == s1[t.len() + 1 + i] && #[trigger] k2[i]
                == s2[t.len() + 1 + i]);
    }
}

/// For colon-free tenants, different tenants' scoped keys never coincide,
/// whatever the keys.
pub proof fn lemma_scoped_keys_disjoint(t1: Seq<char>, k1: Seq<char>, t2: Seq<char>, k2: Seq<char>)
    requires
        colon_free(t1),
        colon_free(t2),
        t1 != t2,
    ensures
        scoped_key(t1, k1) != scoped_key(t2, k2),
{
    reveal_strlit(":");
    if scoped_key(t1, k1) == scoped_key(t2, k2) {
        let s = scoped_key(t1, k1);
        assert(s[t1.len() as int] == ':');
        assert(scoped_key(t2, k2)[t2.len() as int] == ':');
        if t1.len() < t2.len() {
            assert(s[t1.len() as int] == t2[t1.len() as int]);
        } else if t2.len() < t1.len() {
            assert(s[t2.len() as int] == t1[t2.len() as int]);
        } else {
            assert(t1 =~= t2) by {
                assert(forall|i: int|
                    0 <= i < t1.len() ==> #[trigger] t1[i] == s[i] && #[trigger] t2[i] == s[i]);
            }
        }
    }
}

/// Writing under a tenant's scoped key inserts exactly under that key in
/// the tenant's view.
pub proof fn lemma_view_insert(
    m: Map<Seq<char>, Seq<char>>,
    t: Seq<char>,
    k: Seq<char>,
    v: Seq<char>,
)
    ensures
        tenant_view(m.insert(scoped_key(t, k), v), t) == tenant_view(m, t).insert(k, v),
{
    assert forall|x: Seq<char>| x != k implies scoped_key(t, x) != scoped_key(t, k) by {
        if scoped_key(t, x) == scoped_key(t, k) {
            lemma_scoped_key_injective(t, x, k);
        }
    }
    assert(tenant_view(m.insert(scoped_key(t, k), v), t) =~= tenant_view(m, t).insert(k, v));
}

/// Deleting a tenant's scoped key removes exactly that key from the
/// tenant's view.
pub proof fn lemma_view_remove(m: Map<Seq<char>, Seq<char>>, t: Seq<char>, k: Seq<char>)
    ensures
        tenant_view(m.remove(scoped_key(t, k)), t) == tenant_view(m, t).remove(k),
{
    assert forall|x: Seq<char>| x != k implies scoped_key(t, x) != scoped_key(t, k) by {
        if scoped_key(t, x) == scoped_key(t, k) {
            lemma_scoped_key_injective(t, x, k);
        }
    }
    assert(tenant_view(m.remove(scoped_key(t, k)), t) =~= tenant_view(m, t).remove(k));
}

/// A batch written under scoped keys is, in the tenant's view, the same
/// batch written under the tenant's own keys.
pub proof fn lemma_view_upsert(
    m: Map<Seq<char>, Seq<char>>,
    t: Seq<char>,
    scoped_items: Seq<(Seq<char>, Seq<char>)>,
    items: Seq<(Seq<char>, Seq<char>)>,
)
    requires
        scoped_items.len() == items.len(),
        forall|i: int|
            0 <= i < items.len() ==> #[trigger] scoped_items[i] == (
                scoped_key(t, items[i].0),
                items[i].1,
            ),
    ensures
        tenant_view(seq_upsert(m, scoped_items), t) == seq_upsert(tenant_view(m, t), items),
    decreases items.len(),
{
    if items.len() > 0 {
        assert(forall|i: int|
            0 <= i < items.len() - 1 ==> #[trigger] scoped_items.drop_last()[i]
                == scoped_items[i] && #[trigger] items.drop_last()[i] == items[i]);
        lemma_view_upsert(m, t, scoped_items.drop_last(), items.drop_last());
        assert(scoped_items.last() == (scoped_key(t, items.last().0), items.last().1));
        lemma_view_insert(
            seq_upsert(m, scoped_items.drop_last()),
            t,
            items.last().0,
            items.last().1,
        );
    }
}

/// Tenant isolation: a write under one colon-free tenant leaves every other
/// colon-free tenant's view untouched.
pub proof fn lemma_tenant_isolation(
    m: Map<Seq<char>, Seq<char>>,
    t1: Seq<char>,
    t2: Seq<char>,
    k: Seq<char>,
    v: Seq<char>,
)
    requires
        colon_free(t1),
        colon_free(t2),
        t1 != t2,
    ensures
        tenant_view(m.insert(scoped_key(t1, k), v), t2) == tenant_view(m, t2),
{
    assert forall|x: Seq<char>| scoped_key(t2, x) != scoped_key(t1, k) by {
        lemma_scoped_keys_disjoint(t1, k, t2, x);
    }
    assert(tenant_view(m.insert(scoped_key(t1, k), v), t2) =~= tenant_view(m, t2));
}

/// Two tenants writing different values under the same key through their
/// own scopes each read back their own value.
pub proof fn lemma_tenant_isolation_pair(
    m: Map<Seq<char>, Seq<char>>,
    ta: Seq<char>,
    tb: Seq<char>,
    k: Seq<char>,
    v1: Seq<char>,
    v2: Seq<char>,
)
    requires
        colon_free(ta),
        colon_free(tb),
        ta != tb,
    ensures
        ({
            let m2 = m.insert(scoped_key(ta, k), v1).insert(scoped_key(tb, k), v2);
            &&& tenant_view(m2, ta).contains_key(k)
            &&& tenant_view(m2, ta)[k] == v1
            &&& tenant_view(m2, tb).contains_key(k)
            &&& tenant_view(m2, tb)[k] == v2
        }),
{
    lemma_scoped_keys_disjoint(ta, k, tb, k);
}

/// Wraps one backend and namespaces every key under `tenant` before
/// delegating; results come back unchanged. `flush` is the one operation
/// that cannot simply delegate — removing only this tenant's keys would
/// need prefix-aware deletion in the backend — and fails as unsupported.
pub struct TenantCache<C: CacheLayer> {
    /// The namespace prepended to every key.
    pub tenant: String,
    /// The backend every call is delegated to.
    pub inner: C,
}

impl<C: CacheLayer> TenantCache<C> {
    /// Scopes `inner` under `tenant`.
    pub fn new(tenant: String, inner: C) -> (r: Self)
        ensures
            r.tenant == tenant,
            r.inner == inner,
    {
        TenantCache { tenant, inner }
    }
}

impl<C: CacheLayer> CacheLayer for TenantCache<C> {
    /// The inner backend's contents seen through the tenant's prefix.
    open spec fn contents(&self) -> Map<Seq<char>, Seq<char>> {
        tenant_view(self.inner.contents(), self.tenant@)
    }

    open spec fn inv(&self) -> bool {
        self.inner.inv()
    }

    fn get(&mut self, key: &str) -> (r: Result<Option<String>, CacheError>) {
        let k = scoped_key_of(self.tenant.as_str(), key);
        self.inner.get(k.as_str())
    }

    fn set(&mut self, key: &str, value: &str) -> (r: Result<(), CacheError>) {
        let ghost m0 = self.inner.contents();
        let k = scoped_key_of(self.tenant.as_str(), key);
        let r = self.inner.set(k.as_str(), value);
        proof {
            if r is Ok {
                lemma_view_insert(m0, self.tenant@, key@, value@);
            }
        }
        r
    }

    fn delete(&mut self, key: &str) -> (r: Result<(), CacheError>) {
        let ghost m0 = self.inner.contents();
        let k = scoped_key_of(self.tenant.as_str(), key);
        let r = self.inner.delete(k.as_str());
        proof {
            if r is Ok {
                lemma_view_remove(m0, self.tenant@, key@);
            }
        }
        r
    }

    fn key_exists(&mut self, key: &str) -> (r: Result<bool, CacheError>) {
        let k = scoped_key_of(self.tenant.as_str(), key);
        self.inner.key_exists(k.as_str())
    }

    fn set_if_absent(&mut self, key: &str, value: &str) -> (r: Result<bool, CacheError>) {
        let ghost m0 = self.inner.contents();
        let k = scoped_key_of(self.tenant.as_str(), key);
        let r = self.inner.set_if_absent(k.as_str(), value);
        proof {
            if r matches Ok(true) {
                lemma_view_insert(m0, self.tenant@, key@, value@);
            }
        }
        r
    }

    fn update(&mut self, key: &str, value: &str) -> (r: Result<(), CacheError>) {
        let ghost m0 = self.inner.contents();
        let k = scoped_key_of(self.tenant.as_str(), key);
        let r = self.inner.update(k.as_str(), value);
        proof {
            if r is Ok {
                lemma_view_insert(m0, self.tenant@, key@, value@);
            }
        }
        r
    }

    fn compare_and_swap(&mut self, key: &str, expected: &str, new_value: &str) -> (r: Result<
        bool,
        CacheError,
    >) {
        let ghost m0 = self.inner.contents();
        let k = scoped_key_of(self.tenant.as_str(), key);
        let r = self.inner.compare_and_swap(k.as_str(), expected, new_value);
        proof {
            if r matches Ok(true) {
                lemma_view_insert(m0, self.tenant@, key@, new_value@);
            }
        }
        r
    }

    #[verifier::loop_isolation(false)]
    fn bulk_get(&mut self, keys: &[&str]) -> (r: Result<Vec<Option<String>>, CacheError>) {
        let mut scoped: Vec<String> = Vec::new();
        let mut i: usize = 0;
        while i < keys.len()
            invariant
                i == scoped@.len(),
                i <= keys@.len(),
                forall|j: int|
                    0 <= j < i ==> (#[trigger] scoped@[j])@ == scoped_key(
                        self.tenant@,
                        keys@[j]@,
                    ),
            decreases keys@.len() - i,
        {
            scoped.push(scoped_key_of(self.tenant.as_str(), keys[i]));
            i = i + 1;
        }
        let mut refs: Vec<&str> = Vec::new();
        let mut j: usize = 0;
        while j < scoped.len()
            invariant
                j == refs@.len(),
                j <= scoped@.len(),
                forall|x: int| 0 <= x < j ==> (#[trigger] refs@[x])@ == scoped@[x]@,
            decreases scoped@.len() - j,
        {
            refs.push(scoped[j].as_str());
            j = j + 1;
        }
        self.inner.bulk_get(refs.as_slice())
    }

    #[verifier::loop_isolation(false)]
    fn bulk_set(&mut self, items: &[(&str, &str)]) -> (r: Result<(), CacheError>) {
        let ghost m0 = self.inner.contents();
        let mut scoped: Vec<String> = Vec::new();
        let mut i: usize = 0;
        while i < items.len()
            invariant
                i == scoped@.len(),
                i <= items@.len(),
                forall|j: int|
                    0 <= j < i ==> (#[trigger] scoped@[j])@ == scoped_key(
                        self.tenant@,
                        items@[j].0@,
                    ),
            decreases items@.len() - i,
        {
            scoped.push(scoped_key_of(self.tenant.as_str(), items[i].0));
            i = i + 1;
        }
        let mut pairs: Vec<(&str, &str)> = Vec::new();
        let mut j: usize = 0;
        while j < items.len()
            invariant
                j == pairs@.len(),
                j <= items@.len(),
                forall|x: int|
                    0 <= x < j ==> (#[trigger] pairs@[x]).0@ == scoped@[x]@ && pairs@[x].1@
                        == items@[x].1@,
            decreases items@.len() - j,
        {
            pairs.push((scoped[j].as_str(), items[j].1));
            j = j + 1;
        }
        let r = self.inner.bulk_set(pairs.as_slice());
        proof {
            let t = self.tenant@;
            let scoped_batch = pairs_view(pairs@);
            let batch = pairs_view(items@);
            assert(forall|x: int|
                0 <= x < batch.len() ==> #[trigger] scoped_batch[x] == (
                    scoped_key(t, batch[x].0),
                    batch[x].1,
                ));
            match r {
                Ok(_) => {
                    lemma_view_upsert(m0, t, scoped_batch, batch);
                },
                Err(_) => {
                    let n = choose|n: int|
                        0 <= n <= pairs@.len() && self.inner.contents() == seq_upsert(
                            m0,
                            #[trigger] scoped_batch.take(n),
                        );
                    assert(forall|x: int|
                        0 <= x < n ==> #[trigger] scoped_batch.take(n)[x] == (
                            scoped_key(t, batch.take(n)[x].0),
                            batch.take(n)[x].1,
                        ));
                    lemma_view_upsert(m0, t, scoped_batch.take(n), batch.take(n));
                    assert(self.contents() == seq_upsert(
                        tenant_view(m0, t),
                        batch.take(n),
                    ));
                },
            }
        }
        r
    }

    fn atomic_increment(&mut self, key: &str) -> (r: Result<i64, CacheError>) {
        let ghost m0 = self.inner.contents();
        let k = scoped_key_of(self.tenant.as_str(), key);
        let r = self.inner.atomic_increment(k.as_str());
        proof {
            match r {
                Ok(v) => lemma_view_insert(m0, self.tenant@, key@, dec_string_of(v as int)),
                Err(_) => {},
            }
        }
        r
    }

    fn atomic_decrement(&mut self, key: &str) -> (r: Result<i64, CacheError>) {
        let ghost m0 = self.inner.contents();
        let k = scoped_key_of(self.tenant.as_str(), key);
        let r = self.inner.atomic_decrement(k.as_str());
        proof {
            match r {
                Ok(v) => lemma_view_insert(m0, self.tenant@, key@, dec_string_of(v as int)),
                Err(_) => {},
            }
        }
        r
    }

    fn flush(&mut self) -> (r: Result<(), CacheError>) {
        Err(
            CacheError::Unsupported(
                String::from_str(
                    "tenant-scoped flush needs prefix-aware deletion in the backend",
                ),
            ),
        )
    }
}

} // verus!
