//! Bounded cache of the geometry of transformed objects.
//!
//! Geometry is stored under a 64-bit key. The cache never holds more than
//! `TRANSFORMED_CACHE_CAP` entries: storing into a full cache first evicts
//! half of it, the first keys in the map's iteration order, then stores.

use vstd::prelude::*;
use std::collections::HashMap;
use crate::TRANSFORMED_CACHE_CAP;
use vstd::std_specs::hash::spec_keys_iter;
use vstd::std_specs::iter::IteratorSpec;

verus! {

broadcast use {vstd::std_specs::hash::group_hash_axioms, vstd::set::group_set_axioms};

/// Entries evicted from a full cache before a store.
pub open spec fn evicted_per_store() -> int {
    TRANSFORMED_CACHE_CAP as int / 2
}

/// `after` is `before` once `value` was stored under `key`: below the cap the
/// entry is simply inserted; a full cache first loses exactly half of its
/// entries, and none is changed or invented.
pub open spec fn cache_store<V>(before: Map<u64, V>, after: Map<u64, V>, key: u64, value: V) -> bool {
    if before.len() < TRANSFORMED_CACHE_CAP {
        after == before.insert(key, value)
    } else {
        exists|evicted: Set<u64>|
            #![trigger before.remove_keys(evicted)]
            evicted.subset_of(before.dom()) && evicted.finite() && evicted.len() == evicted_per_store()
                && after == before.remove_keys(evicted).insert(key, value)
    }
}

/// Geometry cached per transformed object, keyed by a hash of everything the
/// geometry depends on.
pub struct TransformedCache<V> {
    entries: HashMap<u64, V>,
}

impl<V> View for TransformedCache<V> {
    type V = Map<u64, V>;

    closed spec fn view(&self) -> Map<u64, V> {
        self.entries@
    }
}

/// A lookup right after a store finds the stored value.
pub proof fn lemma_lookup_after_store<V>(before: Map<u64, V>, after: Map<u64, V>, key: u64, value: V)
    requires
        cache_store(before, after, key, value),
    ensures
        after.contains_key(key),
        after[key] == value,
{
}

/// A store never changes or invents the entry of another key: whatever else
/// the cache holds afterwards, it held before, with the same value.
pub proof fn lemma_store_invents_nothing<V>(
    before: Map<u64, V>,
    after: Map<u64, V>,
    key: u64,
    value: V,
    other: u64,
)
    requires
        cache_store(before, after, key, value),
        other != key,
        after.contains_key(other),
    ensures
        before.contains_key(other),
        after[other] == before[other],
{
}

/// Below the cap a store evicts nothing.
pub proof fn lemma_store_below_cap_keeps_entries<V>(
    before: Map<u64, V>,
    after: Map<u64, V>,
    key: u64,
    value: V,
    other: u64,
)
    requires
        cache_store(before, after, key, value),
        before.len() < TRANSFORMED_CACHE_CAP,
        before.contains_key(other),
        other != key,
    ensures
        after.contains_key(other),
        after[other] == before[other],
{
}

/// A cache within the cap stays within it after any store.
pub proof fn lemma_store_keeps_cap<V>(before: Map<u64, V>, after: Map<u64, V>, key: u64, value: V)
    requires
        before.dom().finite(),
        before.len() <= TRANSFORMED_CACHE_CAP,
        cache_store(before, after, key, value),
    ensures
        after.dom().finite(),
        after.len() <= TRANSFORMED_CACHE_CAP,
{
    if before.len() >= TRANSFORMED_CACHE_CAP {
        let evicted = choose|evicted: Set<u64>|
            #![trigger before.remove_keys(evicted)]
            evicted.subset_of(before.dom()) && evicted.finite() && evicted.len()
                == evicted_per_store() && after == before.remove_keys(evicted).insert(key, value);
        before.lemma_remove_keys_len(evicted);
        assert(before.remove_keys(evicted).dom() =~= before.dom().difference(evicted));
        assert(after.dom() =~= before.remove_keys(evicted).dom().insert(key));
    } else {
        assert(after.dom() =~= before.dom().insert(key));
    }
}

impl<V> TransformedCache<V> {
    /// The cache holds a finite map of at most `TRANSFORMED_CACHE_CAP` entries.
    pub closed spec fn wf(&self) -> bool {
        &&& self.entries@.dom().finite()
        &&& self.entries@.len() <= TRANSFORMED_CACHE_CAP
    }

    /// An empty cache.
    pub fn new() -> (cache: Self)
        ensures
            cache.wf(),
            cache@ == Map::<u64, V>::empty(),
    {
        TransformedCache { entries: HashMap::new() }
    }

    /// Number of cached entries.
    pub fn len(&self) -> (n: usize)
        requires
            self.wf(),
        ensures
            n == self@.len(),
            n <= TRANSFORMED_CACHE_CAP,
    {
        self.entries.len()
    }

    /// The geometry stored under `key`, if any.
    pub fn get(&self, key: u64) -> (found: Option<&V>)
        requires
            self.wf(),
        ensures
            match found {
                Some(v) => self@.contains_key(key) && *v == self@[key],
                None => !self@.contains_key(key),
            },
    {
        self.entries.get(&key)
    }

    /// Stores `value` under `key`, evicting half of the cache first when it
    /// is full.
    pub fn insert(&mut self, key: u64, value: V)
        requires
            old(self).wf(),
        ensures
            final(self).wf(),
            cache_store(old(self)@, final(self)@, key, value),
    {
        let ghost before = self.entries@;
        if self.entries.len() >= TRANSFORMED_CACHE_CAP {
            let ghost walk = spec_keys_iter(&self.entries).remaining();
            let mut keys: Vec<u64> = Vec::new();
            for k in it: self.entries.keys()
                invariant
                    it.seq() == walk,
                    keys@.len() == it.index(),
                    forall|i: int| 0 <= i < it.index() ==> keys@[i] == *walk[i],
            {
                keys.push(*k);
            }
            proof {
                assert(keys@ =~= walk.unref());
            }
            let half: usize = TRANSFORMED_CACHE_CAP / 2;
            let mut i: usize = 0;
            while i < half
                invariant
                    i <= half,
                    half == evicted_per_store(),
                    keys@ == walk.unref(),
                    keys@.len() == before.len(),
                    before.len() >= TRANSFORMED_CACHE_CAP,
                    self.entries@ == before.remove_keys(keys@.take(i as int).to_set()),
                decreases half - i,
            {
                let key_i: u64 = keys[i];
                self.entries.remove(&key_i);
                proof {
                    assert(keys@.take(i as int + 1) =~= keys@.take(i as int).push(key_i));
                    keys@.take(i as int).lemma_push_to_set_commute(key_i);
                    assert(self.entries@ =~= before.remove_keys(keys@.take(i as int + 1).to_set()));
                }
                i = i + 1;
            }
            proof {
                let evicted = keys@.take(half as int).to_set();
                keys@.take(half as int).unique_seq_to_set();
                assert forall|k: u64| #[trigger] evicted.contains(k) implies before.dom().contains(k) by {
                    assert(walk.unref().to_set().contains(k));
                }
                before.lemma_remove_keys_len(evicted);
                assert(evicted.finite());
            }
        }
        self.entries.insert(key, value);
    }
}

} // verus!
