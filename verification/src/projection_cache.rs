//! Cache of projected regular polytopes.
//!
//! Projecting a regular polytope depends on its kind, scale and rotation
//! angles; the projection is cached under a key of 64-bit words that records
//! those inputs (the floats by their bits). The cache is first in, first out:
//! it keeps at most `MAX_PROJECTED_POLYTOPE_CACHE_ENTRIES` projections and
//! drops the oldest to make room. A key is stored once.

use vstd::prelude::*;
use std::collections::{TryReserveError, VecDeque};
use crate::depth_3d::{
    vec_try_reserve_exact, family_index, polychoron_cache_slot, polychoron_slot_spec, RegularPolychoron,
    RegularPolytopeFamily,
};

verus! {

/// Projections the cache keeps.
pub const MAX_PROJECTED_POLYTOPE_CACHE_ENTRIES: usize = 32;

/// First word of the key of a regular 4D polytope.
pub const POLYCHORON_KEY_TAG: u64 = 0;

/// First word of the key of a regular polytope of any dimension.
pub const GENERIC_POLYTOPE_KEY_TAG: u64 = 1;

/// Key of a regular 4D polytope: its tag, kind, scale and six rotation angles.
pub open spec fn polychoron_key_spec(kind: RegularPolychoron, scale_bits: u64, rotation_bits: Seq<
    u64,
>) -> Seq<u64> {
    seq![POLYCHORON_KEY_TAG, polychoron_slot_spec(kind) as u64, scale_bits] + rotation_bits
}

/// Key of a regular polytope of any dimension: its tag, family, dimension,
/// scale and rotation angles.
pub open spec fn generic_key_spec(
    family: RegularPolytopeFamily,
    dimension: u64,
    scale_bits: u64,
    rotation_bits: Seq<u64>,
) -> Seq<u64> {
    seq![GENERIC_POLYTOPE_KEY_TAG, family_index(family) as u64, dimension, scale_bits]
        + rotation_bits
}

/// The cache key of a regular 4D polytope.
pub fn polychoron_projection_key(
    kind: RegularPolychoron,
    scale_bits: u64,
    rotation_bits: [u64; 6],
) -> (key: Vec<u64>)
    ensures
        key@ == polychoron_key_spec(kind, scale_bits, rotation_bits@),
{
    let mut key: Vec<u64> = Vec::new();
    key.push(POLYCHORON_KEY_TAG);
    key.push(polychoron_cache_slot(kind) as u64);
    key.push(scale_bits);
    let mut k: usize = 0;
    while k < 6
        invariant
            k <= 6,
            key@ == seq![POLYCHORON_KEY_TAG, polychoron_slot_spec(kind) as u64, scale_bits]
                + rotation_bits@.take(k as int),
        decreases 6 - k,
    {
        proof {
            assert(rotation_bits@.take(k as int + 1) =~= rotation_bits@.take(k as int).push(
                rotation_bits@[k as int],
            ));
        }
        key.push(rotation_bits[k]);
        k = k + 1;
    }
    assert(rotation_bits@.take(6) =~= rotation_bits@);
    key
}

/// `std::collections::VecDeque::try_reserve`: reserves capacity or reports
/// an allocation failure; either way the contents are unchanged. Whether it
/// succeeds depends on the allocator and is not stated.
#[verifier::external_body]
fn vec_deque_try_reserve<T>(d: &mut VecDeque<T>, additional: usize) -> (result: Result<
    (),
    TryReserveError,
>)
    ensures
        final(d)@ == old(d)@,
{
    d.try_reserve(additional)
}

/// The cache key of a regular polytope of any dimension, or `None` when the
/// key cannot be allocated.
pub fn generic_polytope_projection_key(
    family: RegularPolytopeFamily,
    dimension: u64,
    scale_bits: u64,
    rotation_bits: &[u64],
) -> (key: Option<Vec<u64>>)
    ensures
        key matches Some(k) ==> k@ == generic_key_spec(
            family,
            dimension,
            scale_bits,
            rotation_bits@,
        ),
{
    let mut key: Vec<u64> = Vec::new();
    if rotation_bits.len() > usize::MAX - 4 {
        return None;
    }
    if vec_try_reserve_exact(&mut key, rotation_bits.len() + 4).is_err() {
        return None;
    }
    key.push(GENERIC_POLYTOPE_KEY_TAG);
    let family_word: u64 = match family {
        RegularPolytopeFamily::Simplex => 0,
        RegularPolytopeFamily::Hypercube => 1,
        RegularPolytopeFamily::CrossPolytope => 2,
    };
    key.push(family_word);
    key.push(dimension);
    key.push(scale_bits);
    let mut k: usize = 0;
    while k < rotation_bits.len()
        invariant
            k <= rotation_bits@.len(),
            key@ == seq![GENERIC_POLYTOPE_KEY_TAG, family_index(family) as u64, dimension, scale_bits]
                + rotation_bits@.take(k as int),
        decreases rotation_bits@.len() - k,
    {
        proof {
            assert(rotation_bits@.take(k as int + 1) =~= rotation_bits@.take(k as int).push(
                rotation_bits@[k as int],
            ));
        }
        key.push(rotation_bits[k]);
        k = k + 1;
    }
    assert(rotation_bits@.take(rotation_bits@.len() as int) =~= rotation_bits@);
    Some(key)
}

/// Keys of different projections differ: a 4D polytope never shares a key
/// with a polytope of the generic families, and two keys of the same kind
/// are equal only when kind, scale and every rotation angle are.
pub proof fn lemma_projection_keys_distinguish_inputs(
    kind_a: RegularPolychoron,
    scale_a: u64,
    rot_a: Seq<u64>,
    kind_b: RegularPolychoron,
    scale_b: u64,
    rot_b: Seq<u64>,
    family: RegularPolytopeFamily,
    dimension: u64,
    scale_g: u64,
    rot_g: Seq<u64>,
)
    ensures
        polychoron_key_spec(kind_a, scale_a, rot_a) != generic_key_spec(
            family,
            dimension,
            scale_g,
            rot_g,
        ),
        polychoron_key_spec(kind_a, scale_a, rot_a) == polychoron_key_spec(kind_b, scale_b, rot_b)
            ==> kind_a == kind_b && scale_a == scale_b && rot_a == rot_b,
{
    let ka = polychoron_key_spec(kind_a, scale_a, rot_a);
    let kb = polychoron_key_spec(kind_b, scale_b, rot_b);
    let kg = generic_key_spec(family, dimension, scale_g, rot_g);
    assert(ka[0] != kg[0]);
    if ka == kb {
        assert(ka[1] == kb[1]);
        assert(ka[2] == kb[2]);
        assert(rot_a =~= ka.subrange(3, ka.len() as int));
        assert(rot_b =~= kb.subrange(3, kb.len() as int));
    }
}

/// `key` is stored among `entries`.
pub open spec fn holds_key<V>(entries: Seq<(Seq<u64>, V)>, key: Seq<u64>) -> bool {
    exists|i: int| 0 <= i < entries.len() && #[trigger] entries[i].0 == key
}

/// No key is stored twice.
pub open spec fn keys_unique<V>(entries: Seq<(Seq<u64>, V)>) -> bool {
    forall|i: int, j: int|
        0 <= i < j < entries.len() ==> #[trigger] entries[i].0 != #[trigger] entries[j].0
}

/// The entries after a store of `value` under `key` that `stored` reports:
/// unchanged when the key was cached already; otherwise a full cache loses
/// its oldest entry and, when the store succeeded, the new entry comes last.
pub open spec fn stored_entries<V>(
    before: Seq<(Seq<u64>, V)>,
    key: Seq<u64>,
    value: V,
    stored: bool,
) -> Seq<(Seq<u64>, V)> {
    if holds_key(before, key) {
        before
    } else {
        let kept = if before.len() == MAX_PROJECTED_POLYTOPE_CACHE_ENTRIES {
            before.drop_first()
        } else {
            before
        };
        if stored {
            kept.push((key, value))
        } else {
            kept
        }
    }
}

/// A cache within its bound stays within it after any store.
pub proof fn lemma_store_keeps_bound<V>(
    before: Seq<(Seq<u64>, V)>,
    key: Seq<u64>,
    value: V,
    stored: bool,
)
    requires
        before.len() <= MAX_PROJECTED_POLYTOPE_CACHE_ENTRIES,
    ensures
        stored_entries(before, key, value, stored).len() <= MAX_PROJECTED_POLYTOPE_CACHE_ENTRIES,
{
}

/// After a successful store the key is cached, with the new value when it
/// was not cached before.
pub proof fn lemma_key_cached_after_store<V>(
    before: Seq<(Seq<u64>, V)>,
    key: Seq<u64>,
    value: V,
)
    ensures
        holds_key(stored_entries(before, key, value, true), key),
        !holds_key(before, key) ==> {
            let after = stored_entries(before, key, value, true);
            after[after.len() - 1] == (key, value)
        },
{
    let after = stored_entries(before, key, value, true);
    if !holds_key(before, key) {
        assert(after[after.len() - 1].0 == key);
    }
}

/// A full cache makes room by dropping exactly its oldest entry: every other
/// entry moves one place towards the front, in order.
pub proof fn lemma_full_cache_drops_oldest<V>(
    before: Seq<(Seq<u64>, V)>,
    key: Seq<u64>,
    value: V,
    stored: bool,
    i: int,
)
    requires
        before.len() == MAX_PROJECTED_POLYTOPE_CACHE_ENTRIES,
        !holds_key(before, key),
        1 <= i < before.len(),
    ensures
        stored_entries(before, key, value, stored)[i - 1] == before[i],
{
}

/// Projections cached under their keys, oldest first.
pub struct ProjectedPolytopeCache<V> {
    entries: VecDeque<(Vec<u64>, V)>,
}

impl<V> View for ProjectedPolytopeCache<V> {
    type V = Seq<(Seq<u64>, V)>;

    closed spec fn view(&self) -> Seq<(Seq<u64>, V)> {
        self.entries@.map_values(|e: (Vec<u64>, V)| (e.0@, e.1))
    }
}

/// Words of `a` and `b` are the same.
fn words_equal(a: &[u64], b: &[u64]) -> (equal: bool)
    ensures
        equal == (a@ == b@),
{
    if a.len() != b.len() {
        return false;
    }
    let mut k: usize = 0;
    while k < a.len()
        invariant
            a@.len() == b@.len(),
            k <= a@.len(),
            a@.take(k as int) == b@.take(k as int),
        decreases a@.len() - k,
    {
        if a[k] != b[k] {
            return false;
        }
        proof {
            assert(a@.take(k as int + 1) =~= a@.take(k as int).push(a@[k as int]));
            assert(b@.take(k as int + 1) =~= b@.take(k as int).push(b@[k as int]));
        }
        k = k + 1;
    }
    assert(a@ =~= a@.take(k as int));
    assert(b@ =~= b@.take(k as int));
    true
}

impl<V> ProjectedPolytopeCache<V> {
    /// At most `MAX_PROJECTED_POLYTOPE_CACHE_ENTRIES` entries, each key once.
    pub closed spec fn wf(&self) -> bool {
        &&& self.entries@.len() <= MAX_PROJECTED_POLYTOPE_CACHE_ENTRIES
        &&& keys_unique(self@)
    }

    /// An empty cache.
    pub fn new() -> (cache: Self)
        ensures
            cache.wf(),
            cache@ == Seq::<(Seq<u64>, V)>::empty(),
    {
        let cache = ProjectedPolytopeCache { entries: VecDeque::new() };
        assert(cache@ =~= Seq::<(Seq<u64>, V)>::empty());
        cache
    }

    /// Number of cached projections.
    pub fn len(&self) -> (n: usize)
        requires
            self.wf(),
        ensures
            n == self@.len(),
            n <= MAX_PROJECTED_POLYTOPE_CACHE_ENTRIES,
    {
        self.entries.len()
    }

    /// Drops every projection (after an interrupted update).
    pub fn clear(&mut self)
        ensures
            final(self).wf(),
            final(self)@ == Seq::<(Seq<u64>, V)>::empty(),
    {
        self.entries.clear();
        assert(self@ =~= Seq::<(Seq<u64>, V)>::empty());
    }

    /// The projection cached under `key`, if any.
    pub fn find(&self, key: &[u64]) -> (found: Option<&V>)
        requires
            self.wf(),
        ensures
            found is Some <==> holds_key(self@, key@),
            found matches Some(v) ==> exists|i: int|
                0 <= i < self@.len() && #[trigger] self@[i].0 == key@ && self@[i].1 == *v,
    {
        let mut i: usize = 0;
        while i < self.entries.len()
            invariant
                i <= self@.len(),
                self@.len() == self.entries@.len(),
                forall|q: int| 0 <= q < i ==> #[trigger] self@[q].0 != key@,
            decreases self@.len() - i,
        {
            let entry = &self.entries[i];
            if words_equal(entry.0.as_slice(), key) {
                assert(self@[i as int].0 == key@);
                return Some(&entry.1);
            }
            i = i + 1;
        }
        None
    }

    /// Stores a projection under a key that is not cached yet: a full cache
    /// first drops its oldest entry, then the new entry is appended unless
    /// the allocation fails. A key already cached leaves the cache as it is.
    /// Returns whether `key` is cached afterwards.
    pub fn store(&mut self, key: Vec<u64>, value: V) -> (stored: bool)
        requires
            old(self).wf(),
        ensures
            final(self).wf(),
            holds_key(old(self)@, key@) ==> stored,
            final(self)@ == stored_entries(old(self)@, key@, value, stored),
    {
        if self.find(key.as_slice()).is_some() {
            return true;
        }
        let ghost before = self@;
        if self.entries.len() == MAX_PROJECTED_POLYTOPE_CACHE_ENTRIES {
            let _ = self.entries.pop_front();
            assert(self@ =~= before.drop_first());
        }
        let ghost kept = self@;
        if vec_deque_try_reserve(&mut self.entries, 1).is_err() {
            return false;
        }
        self.entries.push_back((key, value));
        proof {
            assert(self@ =~= kept.push((key@, value)));
            assert forall|i: int, j: int| 0 <= i < j < self@.len() implies #[trigger] self@[i].0
                != #[trigger] self@[j].0 by {
                if j == self@.len() - 1 {
                    assert(kept[i].0 == self@[i].0);
                    if before.len() == MAX_PROJECTED_POLYTOPE_CACHE_ENTRIES {
                        assert(before[i + 1].0 == kept[i].0);
                    }
                }
            }
        }
        true
    }
}

} // verus!
