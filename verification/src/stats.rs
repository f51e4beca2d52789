//! Per-session storage statistics: disposition counters and the slot cache.
//!
//! The cache maps a slot index to the value last read for it. It is valid for
//! one session only and must be reset explicitly by the caller; a write never
//! invalidates or updates an entry.

use vstd::prelude::*;
use crate::word256::Word256;

verus! {

/// The cache entries as a map from slot index to cached value.
pub open spec fn cache_view_of(entries: Seq<(Word256, Word256)>) -> Map<nat, nat>
    decreases entries.len(),
{
    if entries.len() == 0 {
        Map::empty()
    } else {
        cache_view_of(entries.drop_last()).insert(entries.last().0@, entries.last().1@)
    }
}

/// The empty cache.
pub open spec fn empty_cache() -> Map<nat, nat> {
    Map::empty()
}

/// Whether the cached slot indices are pairwise distinct.
pub open spec fn distinct_indices(entries: Seq<(Word256, Word256)>) -> bool {
    forall|i: int, j: int| 0 <= i < j < entries.len() ==> entries[i].0@ != entries[j].0@
}

/// A cached index is exactly one that some entry holds.
proof fn lemma_cache_contains(entries: Seq<(Word256, Word256)>, index: nat)
    ensures
        cache_view_of(entries).contains_key(index) <==> exists|i: int|
            0 <= i < entries.len() && entries[i].0@ == index,
    decreases entries.len(),
{
    if entries.len() > 0 {
        lemma_cache_contains(entries.drop_last(), index);
        if cache_view_of(entries).contains_key(index) {
            if entries.last().0@ != index {
                let i = choose|i: int|
                    0 <= i < entries.drop_last().len() && entries.drop_last()[i].0@ == index;
                assert(entries[i].0@ == index);
            } else {
                assert(entries[entries.len() - 1].0@ == index);
            }
        }
        if exists|i: int| 0 <= i < entries.len() && entries[i].0@ == index {
            let i = choose|i: int| 0 <= i < entries.len() && entries[i].0@ == index;
            if i < entries.len() - 1 {
                assert(entries.drop_last()[i].0@ == index);
            }
        }
    }
}

/// Under distinct indices, the cache maps each entry's index to its value.
proof fn lemma_cache_value(entries: Seq<(Word256, Word256)>, i: int)
    requires
        distinct_indices(entries),
        0 <= i < entries.len(),
    ensures
        cache_view_of(entries).contains_key(entries[i].0@),
        cache_view_of(entries)[entries[i].0@] == entries[i].1@,
    decreases entries.len(),
{
    if i == entries.len() - 1 {
    } else {
        assert(distinct_indices(entries.drop_last())) by {
            assert(forall|a: int, b: int|
                0 <= a < b < entries.drop_last().len() ==> entries.drop_last()[a].0@
                    == entries[a].0@ && entries.drop_last()[b].0@ == entries[b].0@);
        }
        lemma_cache_value(entries.drop_last(), i);
        assert(entries.drop_last()[i] == entries[i]);
        assert(entries.last().0@ != entries[i].0@);
    }
}

/// Storage statistics for one execution session.
pub struct StorageStats {
    /// Slots rewritten from one nonzero value to a different nonzero value.
    pub number_reset: u64,
    /// Slots written from zero to a nonzero value.
    pub number_set: u64,
    /// Slots deleted, from a nonzero value back to zero.
    pub number_release: u64,
    /// Reads served from the cache.
    pub number_warm_read: u64,
    /// The slot cache; its length is the number of cold reads.
    pub map: Vec<(Word256, Word256)>,
}

/// Saturating addition of a count onto a 64-bit counter.
pub open spec fn sat_add64(counter: u64, count: nat) -> u64 {
    if counter + count > u64::MAX {
        u64::MAX
    } else {
        (counter + count) as u64
    }
}

/// Two saturating additions fold into one.
pub proof fn lemma_sat_add_assoc(counter: u64, a: nat, b: nat)
    ensures
        sat_add64(sat_add64(counter, a), b) == sat_add64(counter, a + b),
{
}

/// Saturating a count before adding it saturates the same.
pub proof fn lemma_sat_add_fold(counter: u64, count: nat)
    ensures
        sat_add64(counter, sat_add64(0u64, count) as nat) == sat_add64(counter, count),
{
}

impl StorageStats {
    /// Well-formed: cached slot indices are pairwise distinct.
    pub open spec fn wf(&self) -> bool {
        distinct_indices(self.map@)
    }

    /// The cache as a map from slot index to cached value.
    pub open spec fn cache(&self) -> Map<nat, nat> {
        cache_view_of(self.map@)
    }

    /// Whether every counter is zero and the cache is empty.
    pub open spec fn is_reset(&self) -> bool {
        &&& self.number_reset == 0
        &&& self.number_set == 0
        &&& self.number_release == 0
        &&& self.number_warm_read == 0
        &&& self.map@.len() == 0
    }

    /// Fresh statistics: all counters zero, no cached slot.
    pub fn new() -> (stats: StorageStats)
        ensures
            stats.wf(),
            stats.is_reset(),
            stats.cache() == empty_cache(),
    {
        StorageStats {
            number_reset: 0,
            number_set: 0,
            number_release: 0,
            number_warm_read: 0,
            map: Vec::new(),
        }
    }

    /// Clears every counter and the cache.
    pub fn reset(&mut self)
        ensures
            final(self).wf(),
            final(self).is_reset(),
            final(self).cache() == empty_cache(),
    {
        self.number_reset = 0;
        self.number_set = 0;
        self.number_release = 0;
        self.number_warm_read = 0;
        self.map = Vec::new();
    }

    /// Looks a slot index up in the cache.
    pub fn lookup(&self, index: &Word256) -> (r: Option<Word256>)
        requires
            self.wf(),
        ensures
            match r {
                Some(value) => self.cache().contains_key(index@) && self.cache()[index@]
                    == value@,
                None => !self.cache().contains_key(index@),
            },
    {
        let mut i: usize = 0;
        while i < self.map.len()
            invariant
                self.wf(),
                0 <= i <= self.map@.len(),
                forall|j: int| 0 <= j < i ==> self.map@[j].0@ != index@,
            decreases self.map@.len() - i,
        {
            let entry = self.map[i];
            if entry.0.same_value(index) {
                proof {
                    lemma_cache_value(self.map@, i as int);
                }
                return Some(entry.1);
            }
            i += 1;
        }
        proof {
            lemma_cache_contains(self.map@, index@);
        }
        None
    }

    /// Records a cold read: caches the value fetched for a slot not yet seen
    /// this session.
    pub fn insert_cold(&mut self, index: Word256, value: Word256)
        requires
            old(self).wf(),
            !old(self).cache().contains_key(index@),
        ensures
            final(self).wf(),
            final(self).cache() == old(self).cache().insert(index@, value@),
            final(self).map@.len() == old(self).map@.len() + 1,
            final(self).number_reset == old(self).number_reset,
            final(self).number_set == old(self).number_set,
            final(self).number_release == old(self).number_release,
            final(self).number_warm_read == old(self).number_warm_read,
    {
        proof {
            lemma_cache_contains(old(self).map@, index@);
        }
        self.map.push((index, value));
        proof {
            assert(self.map@.drop_last() =~= old(self).map@);
            assert(forall|i: int|
                0 <= i < old(self).map@.len() ==> old(self).map@[i].0@ != index@);
        }
    }
}

} // verus!
