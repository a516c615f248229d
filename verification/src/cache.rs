//! The comparison cache: a bounded memo table for raw metric values.
//!
//! A cache is tied to one algorithm for its whole life and maps an ordered
//! pair of texts to the raw metric the algorithm produced for that pair.
//! Every stored value equals the metric the algorithm would compute afresh,
//! so a hit and a fresh computation can never disagree. The table is bounded:
//! when full, the least recently used entry is evicted.

use vstd::prelude::*;
use vstd::string::StrSliceExecFns;
use vstd::string::StringExecFns;
use crate::algorithm::Algorithm;
use crate::metrics::{compute_raw_metric, raw_metric, SIMILARITY_SCALE};

verus! {

/// Compares two string slices character by character.
pub(crate) fn str_eq(a: &str, b: &str) -> (r: bool)
    ensures
        r == (a@ == b@),
{
    let n = a.unicode_len();
    let m = b.unicode_len();
    if n != m {
        return false;
    }
    let mut i: usize = 0;
    while i < n
        invariant
            n == a@.len(),
            n == b@.len(),
            i <= n,
            forall|j: int| 0 <= j < i ==> a@[j] == b@[j],
        decreases n - i,
    {
        if a.get_char(i) != b.get_char(i) {
            return false;
        }
        i = i + 1;
    }
    proof {
        assert(a@ =~= b@);
    }
    true
}

/// A bounded, least-recently-used memo table for the raw metric of one
/// algorithm.
pub struct ComparisonCache {
    algorithm: Algorithm,
    capacity: usize,
    /// Entries from least to most recently used: `(first text, second text,
    /// raw metric of the pair)`.
    entries: Vec<(String, String, u64)>,
}

impl ComparisonCache {
    /// The algorithm whose raw metric this cache stores.
    pub closed spec fn spec_algorithm(self) -> Algorithm {
        self.algorithm
    }

    /// The number of pairs currently stored.
    pub closed spec fn spec_len(self) -> nat {
        self.entries@.len()
    }

    /// The bound the cache was created with.
    pub closed spec fn spec_capacity(self) -> nat {
        self.capacity as nat
    }

    /// Whether the pair is currently stored in the table.
    pub closed spec fn stores(self, a: Seq<char>, b: Seq<char>) -> bool {
        exists|i: int|
            0 <= i < self.entries@.len() && (#[trigger] self.entries@[i]).0@ == a
                && self.entries@[i].1@ == b
    }

    /// Well-formedness: the bound is positive and respected, no pair is
    /// stored twice, and every stored value is the raw metric of its pair.
    pub closed spec fn wf(self) -> bool {
        &&& self.capacity >= 1
        &&& self.entries@.len() <= self.capacity
        &&& forall|i: int|
            0 <= i < self.entries@.len() ==> (#[trigger] self.entries@[i]).2 == raw_metric(
                self.algorithm,
                self.entries@[i].0@,
                self.entries@[i].1@,
            )
        &&& forall|i: int, j: int|
            0 <= i < j < self.entries@.len() ==> !((#[trigger] self.entries@[i]).0@ == (
            #[trigger] self.entries@[j]).0@ && self.entries@[i].1@ == self.entries@[j].1@)
    }

    /// An empty cache for the given algorithm, bounded by `capacity` pairs.
    pub fn new(algorithm: Algorithm, capacity: usize) -> (r: ComparisonCache)
        requires
            capacity >= 1,
        ensures
            r.wf(),
            r.spec_algorithm() == algorithm,
            r.spec_capacity() == capacity,
            r.spec_len() == 0,
    {
        ComparisonCache { algorithm, capacity, entries: Vec::new() }
    }

    /// The algorithm this cache serves.
    pub fn algorithm(&self) -> (r: Algorithm)
        ensures
            r == self.spec_algorithm(),
    {
        self.algorithm
    }

    /// The position of the pair in the table, if it is stored.
    fn find(&self, a: &str, b: &str) -> (r: Option<usize>)
        ensures
            match r {
                Some(i) => i < self.entries@.len() && self.entries@[i as int].0@ == a@
                    && self.entries@[i as int].1@ == b@,
                None => forall|i: int|
                    0 <= i < self.entries@.len() ==> !((#[trigger] self.entries@[i]).0@ == a@
                        && self.entries@[i].1@ == b@),
            },
    {
        let mut i: usize = 0;
        let n = self.entries.len();
        while i < n
            invariant
                n == self.entries@.len(),
                i <= n,
                forall|j: int|
                    0 <= j < i ==> !((#[trigger] self.entries@[j]).0@ == a@ && self.entries@[j].1@
                        == b@),
            decreases n - i,
        {
            if str_eq(self.entries[i].0.as_str(), a) && str_eq(self.entries[i].1.as_str(), b) {
                return Some(i);
            }
            i = i + 1;
        }
        None
    }

    /// The stored raw metric of the pair, if present; a hit marks the pair
    /// most recently used. A returned value always equals what a fresh
    /// computation of the algorithm would produce for the pair.
    pub fn get(&mut self, a: &str, b: &str) -> (r: Option<u64>)
        requires
            old(self).wf(),
        ensures
            final(self).wf(),
            final(self).spec_algorithm() == old(self).spec_algorithm(),
            final(self).spec_capacity() == old(self).spec_capacity(),
            match r {
                Some(v) => v == raw_metric(old(self).spec_algorithm(), a@, b@) && final(self).stores(a@, b@),
                None => *final(self) == *old(self) && !old(self).stores(a@, b@),
            },
    {
        match self.find(a, b) {
            Some(i) => {
                let entry = self.entries.remove(i);
                let v = entry.2;
                let ghost removed = self.entries@;
                self.entries.push(entry);
                proof {
                    assert forall|p: int, q: int|
                        0 <= p < q < self.entries@.len() implies !((
                    #[trigger] self.entries@[p]).0@ == (#[trigger] self.entries@[q]).0@
                        && self.entries@[p].1@ == self.entries@[q].1@) by {
                        if q == self.entries@.len() - 1 {
                            let old_p = if p < i { p } else { p + 1 };
                            assert(old(self).entries@[old_p] == self.entries@[p]);
                            assert(old(self).entries@[i as int] == self.entries@[q]);
                        } else {
                            let old_p = if p < i { p } else { p + 1 };
                            let old_q = if q < i { q } else { q + 1 };
                            assert(old(self).entries@[old_p] == self.entries@[p]);
                            assert(old(self).entries@[old_q] == self.entries@[q]);
                        }
                    }
                    assert forall|p: int| 0 <= p < self.entries@.len() implies (
                    #[trigger] self.entries@[p]).2 == raw_metric(
                        self.algorithm,
                        self.entries@[p].0@,
                        self.entries@[p].1@,
                    ) by {
                        if p < self.entries@.len() - 1 {
                            let old_p = if p < i { p } else { p + 1 };
                            assert(old(self).entries@[old_p] == self.entries@[p]);
                        } else {
                            assert(old(self).entries@[i as int] == self.entries@[p]);
                        }
                    }
                    let last = self.entries@.len() - 1;
                    assert(self.entries@[last].0@ == a@ && self.entries@[last].1@ == b@);
                    assert(self.stores(a@, b@));
                }
                Some(v)
            },
            None => None,
        }
    }

    /// Stores the raw metric of a pair that is not yet in the table, evicting
    /// the least recently used entry if the table is full.
    fn insert_new(&mut self, a: &str, b: &str, v: u64)
        requires
            old(self).wf(),
            v == raw_metric(old(self).spec_algorithm(), a@, b@),
            !old(self).stores(a@, b@),
        ensures
            final(self).wf(),
            final(self).spec_algorithm() == old(self).spec_algorithm(),
            final(self).spec_capacity() == old(self).spec_capacity(),
            final(self).stores(a@, b@),
    {
        if self.entries.len() == self.capacity {
            self.entries.remove(0);
            proof {
                assert forall|i: int| 0 <= i < self.entries@.len() implies !((
                #[trigger] self.entries@[i]).0@ == a@ && self.entries@[i].1@ == b@) by {
                    assert(old(self).entries@[i + 1] == self.entries@[i]);
                }
                assert forall|p: int, q: int|
                    0 <= p < q < self.entries@.len() implies !((#[trigger] self.entries@[p]).0@ == (
                #[trigger] self.entries@[q]).0@ && self.entries@[p].1@ == self.entries@[q].1@) by {
                    assert(old(self).entries@[p + 1] == self.entries@[p]);
                    assert(old(self).entries@[q + 1] == self.entries@[q]);
                }
                assert forall|p: int| 0 <= p < self.entries@.len() implies (
                #[trigger] self.entries@[p]).2 == raw_metric(
                    self.algorithm,
                    self.entries@[p].0@,
                    self.entries@[p].1@,
                ) by {
                    assert(old(self).entries@[p + 1] == self.entries@[p]);
                }
            }
        }
        let ghost before = self.entries@;
        self.entries.push((String::from_str(a), String::from_str(b), v));
        proof {
            assert forall|p: int, q: int|
                0 <= p < q < self.entries@.len() implies !((#[trigger] self.entries@[p]).0@ == (
            #[trigger] self.entries@[q]).0@ && self.entries@[p].1@ == self.entries@[q].1@) by {
                if q < self.entries@.len() - 1 {
                    assert(before[p] == self.entries@[p]);
                    assert(before[q] == self.entries@[q]);
                } else {
                    assert(before[p] == self.entries@[p]);
                }
            }
            let last = self.entries@.len() - 1;
            assert(self.entries@[last].0@ == a@ && self.entries@[last].1@ == b@);
            assert(self.stores(a@, b@));
        }
    }

    /// The raw metric of the pair: served from the table on a hit, computed
    /// and stored on a miss. Either way the result is exactly the raw metric
    /// of the algorithm on the pair, so repeated lookups of the same pair can
    /// never disagree with each other or with a fresh computation.
    pub fn lookup_or_compute(&mut self, a: &str, b: &str) -> (r: u64)
        requires
            old(self).wf(),
        ensures
            final(self).wf(),
            final(self).spec_algorithm() == old(self).spec_algorithm(),
            final(self).spec_capacity() == old(self).spec_capacity(),
            r == raw_metric(old(self).spec_algorithm(), a@, b@),
            final(self).stores(a@, b@),
            !old(self).spec_algorithm().edit_based() ==> r <= SIMILARITY_SCALE,
    {
        let hit = self.get(a, b);
        match hit {
            Some(v) => v,
            None => {
                let v = compute_raw_metric(self.algorithm(), a, b);
                self.insert_new(a, b, v);
                v
            },
        }
    }
}

} // verus!
