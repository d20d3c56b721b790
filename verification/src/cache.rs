//! The bounded key cache: identity-keyed storage of derived contract keys
//! with least-recently-used eviction and secure erasure of evicted private
//! material.
//!
//! The recency-ordered storage itself is `lru::LruCache`, held behind the
//! trusted `KeyStore` wrappers below; the cache logic around it is
//! verified against their contracts.

use vstd::prelude::*;

use crate::bytes::zero_seq;
use crate::crypto::erase_bytes;
use crate::kdf::derived_key;
use crate::keys::{id_view_wf, key_view_wf, ContractKey, Identity};
use crate::secret::MasterSecret;

verus! {

/// A cache entry as the contracts see it: the identity view paired with
/// the contract-key view, most recently used first.
pub type CacheEntry = ((Seq<u8>, Seq<u8>), (Seq<u8>, Seq<u8>, Seq<u8>));

/// Index of the first entry whose identity is `id`, or `-1` if absent.
pub open spec fn find_key(s: Seq<CacheEntry>, id: (Seq<u8>, Seq<u8>)) -> int
    decreases s.len(),
{
    if s.len() == 0 {
        -1
    } else if s[0].0 == id {
        0
    } else {
        let r = find_key(s.subrange(1, s.len() as int), id);
        if r == -1 {
            -1
        } else {
            r + 1
        }
    }
}

pub proof fn lemma_find_key(s: Seq<CacheEntry>, id: (Seq<u8>, Seq<u8>))
    ensures
        find_key(s, id) == -1 ==> (forall|j: int| 0 <= j < s.len() ==> s[j].0 != id),
        find_key(s, id) != -1 ==> 0 <= find_key(s, id) < s.len() && s[find_key(s, id)].0 == id,
    decreases s.len(),
{
    if s.len() == 0 {
    } else if s[0].0 == id {
    } else {
        let sub = s.subrange(1, s.len() as int);
        lemma_find_key(sub, id);
        if find_key(s, id) == -1 {
            assert forall|j: int| 0 <= j < s.len() implies s[j].0 != id by {
                if j > 0 {
                    assert(sub[j - 1] == s[j]);
                }
            }
        } else {
            let r = find_key(sub, id);
            assert(s[r + 1] == sub[r]);
        }
    }
}

/// No two entries share an identity.
pub open spec fn distinct_keys(s: Seq<CacheEntry>) -> bool {
    forall|i: int, j: int|
        0 <= i < s.len() && 0 <= j < s.len() && i != j ==> s[i].0 != s[j].0
}

/// The entry holds exactly the key derived from `secret` for its identity,
/// and both halves are well formed.
pub open spec fn entry_coherent(e: CacheEntry, secret: Seq<u8>) -> bool {
    e.1 == derived_key(secret, e.0) && id_view_wf(e.0) && key_view_wf(e.1)
}

/// Every entry is coherent with `secret`.
pub open spec fn coherent_entries(s: Seq<CacheEntry>, secret: Seq<u8>) -> bool {
    forall|i: int| 0 <= i < s.len() ==> #[trigger] entry_coherent(s[i], secret)
}

/// Saturating increment of the derivation counter.
pub open spec fn inc_sat(c: u64) -> u64 {
    if c == u64::MAX {
        u64::MAX
    } else {
        (c + 1) as u64
    }
}

/// Recency-ordered bounded storage for contract keys. Holds the
/// `lru::LruCache` and is opaque to the verifier; everything known about
/// it is stated by the trusted wrappers below over `store_seq` and
/// `store_cap`.
#[verifier::external_body]
pub struct KeyStore {
    inner: lru::LruCache<Identity, ContractKey>,
}

/// The entries held by the store, most recently used first.
pub uninterp spec fn store_seq(s: KeyStore) -> Seq<CacheEntry>;

/// The capacity the store was created with.
pub uninterp spec fn store_cap(s: KeyStore) -> nat;

/// Relies on `lru::LruCache::new`: a fresh cache is empty and holds at
/// most `cap` entries.
#[verifier::external_body]
fn store_new(cap: usize) -> (s: KeyStore)
    requires
        1 <= cap,
    ensures
        store_seq(s) == Seq::<CacheEntry>::empty(),
        store_cap(s) == cap as nat,
{
    KeyStore { inner: lru::LruCache::new(std::num::NonZeroUsize::new(cap).unwrap()) }
}

/// Relies on `lru::LruCache::len`.
#[verifier::external_body]
fn store_len(s: &KeyStore) -> (n: usize)
    ensures
        n as nat == store_seq(*s).len(),
{
    s.inner.len()
}

/// Relies on `lru::LruCache::get`: a hit moves the entry to the front of
/// the recency order and returns its value; a miss changes nothing.
#[verifier::external_body]
fn store_get(s: &mut KeyStore, id: &Identity) -> (r: Option<ContractKey>)
    ensures
        store_cap(*final(s)) == store_cap(*old(s)),
        ({
            let os = store_seq(*old(s));
            let i = find_key(os, id@);
            if i == -1 {
                r is None && store_seq(*final(s)) == os
            } else {
                (r matches Some(k) && k@ == os[i].1) && store_seq(*final(s)) == seq![os[i]]
                    + os.subrange(0, i) + os.subrange(i + 1, os.len() as int)
            }
        }),
{
    match s.inner.get(id) {
        Some(v) => Some(v.clone()),
        None => None,
    }
}

/// Relies on `lru::LruCache::peek`: returns the value without touching the
/// recency order.
#[verifier::external_body]
fn store_peek(s: &KeyStore, id: &Identity) -> (r: Option<ContractKey>)
    ensures
        ({
            let os = store_seq(*s);
            let i = find_key(os, id@);
            if i == -1 {
                r is None
            } else {
                r matches Some(k) && k@ == os[i].1
            }
        }),
{
    match s.inner.peek(id) {
        Some(v) => Some(v.clone()),
        None => None,
    }
}

/// Relies on `lru::LruCache::push`, called with a key that is not in the
/// cache: the new entry becomes the most recent; if the cache was full the
/// least recent entry is removed and returned.
#[verifier::external_body]
fn store_push(s: &mut KeyStore, id: &Identity, v: &ContractKey) -> (evicted: Option<
    (Identity, ContractKey),
>)
    requires
        find_key(store_seq(*old(s)), id@) == -1,
        store_seq(*old(s)).len() <= store_cap(*old(s)),
        1 <= store_cap(*old(s)),
    ensures
        store_cap(*final(s)) == store_cap(*old(s)),
        ({
            let os = store_seq(*old(s));
            if os.len() < store_cap(*old(s)) {
                evicted is None && store_seq(*final(s)) == seq![(id@, v@)] + os
            } else {
                (evicted matches Some(e) && e.0@ == os[os.len() - 1].0 && e.1@ == os[os.len()
                    - 1].1) && store_seq(*final(s)) == seq![(id@, v@)] + os.subrange(
                    0,
                    os.len() - 1,
                )
            }
        }),
{
    s.inner.push(id.clone(), v.clone())
}

/// Moving the entry at `i` to the front is a permutation: what stands
/// where afterwards.
proof fn lemma_move_front(os: Seq<CacheEntry>, i: int)
    requires
        0 <= i < os.len(),
    ensures
        ({
            let ns = seq![os[i]] + os.subrange(0, i) + os.subrange(i + 1, os.len() as int);
            ns.len() == os.len() && ns[0] == os[i] && (forall|p: int|
                1 <= p <= i ==> ns[p] == os[p - 1]) && (forall|p: int|
                i < p < os.len() ==> ns[p] == os[p])
        }),
{
    let ns = seq![os[i]] + os.subrange(0, i) + os.subrange(i + 1, os.len() as int);
    assert forall|p: int| 1 <= p <= i implies ns[p] == os[p - 1] by {
        assert(ns[p] == os.subrange(0, i)[p - 1]);
    }
    assert forall|p: int| i < p < os.len() implies ns[p] == os[p] by {
        assert(ns[p] == os.subrange(i + 1, os.len() as int)[p - 1 - i]);
    }
}

/// Identity-keyed cache of derived contract keys, bounded by a fixed
/// capacity, with LRU eviction. Counts how many derivations it has
/// performed, so that callers can observe that a hit derives nothing.
pub struct KeyCache {
    store: KeyStore,
    derive_count: u64,
}

impl KeyCache {
    /// The cached entries, most recently used first.
    pub closed spec fn entries(self) -> Seq<CacheEntry> {
        store_seq(self.store)
    }

    /// The fixed capacity.
    pub closed spec fn capacity(self) -> nat {
        store_cap(self.store)
    }

    /// How many times a contract key has been derived on a miss.
    pub closed spec fn count(self) -> u64 {
        self.derive_count
    }

    pub open spec fn wf(self) -> bool {
        distinct_keys(self.entries()) && self.entries().len() <= self.capacity() && 1
            <= self.capacity()
    }

    pub open spec fn coherent(self, secret: Seq<u8>) -> bool {
        coherent_entries(self.entries(), secret)
    }

    pub open spec fn contains_id(self, id: (Seq<u8>, Seq<u8>)) -> bool {
        find_key(self.entries(), id) != -1
    }

    pub fn new(capacity: usize) -> (c: KeyCache)
        requires
            1 <= capacity,
        ensures
            c.wf(),
            c.entries() == Seq::<CacheEntry>::empty(),
            c.capacity() == capacity as nat,
            c.count() == 0,
    {
        KeyCache { store: store_new(capacity), derive_count: 0 }
    }

    pub fn len(&self) -> (n: usize)
        ensures
            n as nat == self.entries().len(),
    {
        store_len(&self.store)
    }

    pub fn derivations(&self) -> (n: u64)
        ensures
            n == self.count(),
    {
        self.derive_count
    }

    /// Read-only lookup: never creates an entry and never reorders the
    /// cache.
    pub fn peek(&self, id: &Identity) -> (r: Option<ContractKey>)
        ensures
            (r is Some) <==> self.contains_id(id@),
            r matches Some(k) ==> k@ == self.entries()[find_key(self.entries(), id@)].1,
    {
        proof {
            lemma_find_key(store_seq(self.store), id@);
        }
        store_peek(&self.store, id)
    }

    /// Returns the contract key for `id`, deriving and inserting it on a
    /// miss. A hit performs no derivation and only promotes the entry to
    /// most recent. On insertion past capacity the least recently used
    /// entry is evicted, its private fields are zeroed in place, and the
    /// erased remains are returned so the caller can observe the erasure.
    pub fn get_or_insert(&mut self, id: &Identity, secret: &MasterSecret) -> (r: (
        ContractKey,
        Option<(Identity, ContractKey)>,
    ))
        requires
            old(self).wf(),
            old(self).coherent(secret@),
            secret.wf(),
            id.wf(),
        ensures
            final(self).wf(),
            final(self).coherent(secret@),
            final(self).capacity() == old(self).capacity(),
            r.0@ == derived_key(secret@, id@),
            r.0.wf(),
            final(self).contains_id(id@),
            final(self).entries().len() >= 1,
            final(self).entries()[0].0 == id@,
            final(self).entries()[0].1 == r.0@,
            old(self).contains_id(id@) ==> ({
                let os = old(self).entries();
                let i = find_key(os, id@);
                final(self).count() == old(self).count() && r.1 is None && final(self).entries()
                    == seq![os[i]] + os.subrange(0, i) + os.subrange(i + 1, os.len() as int)
            }),
            !old(self).contains_id(id@) ==> final(self).count() == inc_sat(old(self).count()),
            (!old(self).contains_id(id@) && old(self).entries().len() < old(self).capacity())
                ==> r.1 is None && final(self).entries() == seq![(id@, r.0@)] + old(self).entries(),
            (!old(self).contains_id(id@) && old(self).entries().len() == old(self).capacity())
                ==> ({
                let last = old(self).entries()[old(self).entries().len() - 1];
                (r.1 matches Some(e) && e.0@ == last.0 && e.1.pk@ == last.1.0 && e.1.sk@
                    == zero_seq(32) && e.1.state_key@ == zero_seq(32)) && final(self).entries()
                    == seq![(id@, r.0@)] + old(self).entries().subrange(
                    0,
                    old(self).entries().len() - 1,
                )
            }),
    {
        let ghost os = store_seq(self.store);
        proof {
            lemma_find_key(os, id@);
        }
        let got = store_get(&mut self.store, id);
        match got {
            Some(k) => {
                proof {
                    let i = find_key(os, id@);
                    assert(entry_coherent(os[i], secret@));
                    lemma_move_front(os, i);
                    let ns = store_seq(self.store);
                    assert forall|p: int, q: int|
                        0 <= p < ns.len() && 0 <= q < ns.len() && p != q implies ns[p].0
                        != ns[q].0 by {
                        let a = if p == 0 {
                            i
                        } else if p <= i {
                            p - 1
                        } else {
                            p
                        };
                        let b = if q == 0 {
                            i
                        } else if q <= i {
                            q - 1
                        } else {
                            q
                        };
                        assert(ns[p] == os[a]);
                        assert(ns[q] == os[b]);
                    }
                    assert forall|p: int| 0 <= p < ns.len() implies #[trigger] entry_coherent(
                        ns[p],
                        secret@,
                    ) by {
                        let a = if p == 0 {
                            i
                        } else if p <= i {
                            p - 1
                        } else {
                            p
                        };
                        assert(ns[p] == os[a]);
                        assert(entry_coherent(os[a], secret@));
                    }
                }
                (k, None)
            },
            None => {
                let k = crate::kdf::derive(secret, id);
                let c = if self.derive_count == u64::MAX {
                    u64::MAX
                } else {
                    self.derive_count + 1
                };
                self.derive_count = c;
                let evicted = store_push(&mut self.store, id, &k);
                proof {
                    let ns = store_seq(self.store);
                    let stem: Seq<CacheEntry> = if os.len() < store_cap(self.store) {
                        os
                    } else {
                        os.subrange(0, os.len() - 1)
                    };
                    assert(ns == seq![(id@, k@)] + stem);
                    assert forall|p: int, q: int|
                        0 <= p < ns.len() && 0 <= q < ns.len() && p != q implies ns[p].0
                        != ns[q].0 by {
                        if p > 0 {
                            assert(ns[p] == stem[p - 1]);
                        }
                        if q > 0 {
                            assert(ns[q] == stem[q - 1]);
                        }
                    }
                    assert forall|p: int| 0 <= p < ns.len() implies #[trigger] entry_coherent(
                        ns[p],
                        secret@,
                    ) by {
                        if p > 0 {
                            assert(ns[p] == stem[p - 1]);
                            assert(entry_coherent(os[p - 1], secret@));
                        }
                    }
                }
                match evicted {
                    None => (k, None),
                    Some((eid, mut ek)) => {
                        erase_bytes(&mut ek.sk);
                        erase_bytes(&mut ek.state_key);
                        proof {
                            let last = os[os.len() - 1];
                            assert(entry_coherent(last, secret@));
                        }
                        (k, Some((eid, ek)))
                    },
                }
            },
        }
    }
}

} // verus!
