//! The shard cache: an LRU of `hash -> bytes` with byte-count accounting, a
//! value-size cap, and a deferred-deletion queue.
//!
//! Eviction counts bytes, not entries: values vary from one byte to a
//! kilobyte, so the cache keeps the sum of the stored value lengths within a
//! configured budget, overshooting by at most one accepted value. A `pop`
//! does not delete at once; it queues the hash, and only a hash spilling out
//! of that bounded queue is truly evicted. This keeps nodes of recent forks
//! readable for a while.

use crate::assoc_map::{
    distinct_keys, has_key, key_index, lemma_distinct_remove_keys, lemma_key_index,
    lemma_key_index_at, value_of,
};
use crate::bounded_queue::{spec_bounded_put, BoundedQueue};
use crate::lru_ext::{
    entry_to_front, lru_cap, lru_capacity, lru_clear, lru_contains, lru_entries, lru_get, lru_len,
    lru_new, lru_pop, lru_pop_lru, lru_push,
};
use crate::primitives::{CryptoHash, TRIE_LIMIT_CACHED_VALUE_SIZE};
use crate::refcount::{decode_value_with_rc, spec_decode_value_with_rc};
use lru::LruCache;
use vstd::prelude::*;

verus! {

/// The mathematical state of a shard cache: the LRU entries (most recently
/// used first), the deferred-deletion queue, the byte accounting and the
/// configured bounds.
#[verifier::ext_equal]
pub ghost struct TrieCacheModel {
    pub entries: Seq<(CryptoHash, Seq<u8>)>,
    pub deletions: Seq<CryptoHash>,
    pub total_size: int,
    pub cache_capacity: int,
    pub deletions_capacity: int,
    pub total_size_limit: int,
}

/// The sum of the value lengths of `s`.
pub open spec fn sum_len(s: Seq<(CryptoHash, Seq<u8>)>) -> int
    decreases s.len(),
{
    if s.len() == 0 {
        0
    } else {
        sum_len(s.drop_last()) + s.last().1.len()
    }
}

pub proof fn lemma_sum_len_remove(s: Seq<(CryptoHash, Seq<u8>)>, i: int)
    requires
        0 <= i < s.len(),
    ensures
        sum_len(s.remove(i)) == sum_len(s) - s[i].1.len(),
    decreases s.len(),
{
    if i == s.len() - 1 {
        assert(s.remove(i) =~= s.drop_last());
    } else {
        assert(s.remove(i).drop_last() =~= s.drop_last().remove(i));
        assert(s.remove(i).last() == s.last());
        lemma_sum_len_remove(s.drop_last(), i);
    }
}

pub proof fn lemma_sum_len_nonneg(s: Seq<(CryptoHash, Seq<u8>)>)
    ensures
        sum_len(s) >= 0,
    decreases s.len(),
{
    if s.len() > 0 {
        lemma_sum_len_nonneg(s.drop_last());
    }
}

/// Each value's length is at most the sum.
pub proof fn lemma_sum_len_item(s: Seq<(CryptoHash, Seq<u8>)>, i: int)
    requires
        0 <= i < s.len(),
    ensures
        s[i].1.len() <= sum_len(s),
    decreases s.len(),
{
    lemma_sum_len_remove(s, i);
    lemma_sum_len_nonneg(s.remove(i));
}

pub proof fn lemma_sum_len_cons(p: (CryptoHash, Seq<u8>), s: Seq<(CryptoHash, Seq<u8>)>)
    ensures
        sum_len(seq![p] + s) == p.1.len() + sum_len(s),
    decreases s.len(),
{
    if s.len() == 0 {
        assert(seq![p] + s =~= seq![p]);
        assert((seq![p]).drop_last() =~= Seq::<(CryptoHash, Seq<u8>)>::empty());
        assert(sum_len(Seq::<(CryptoHash, Seq<u8>)>::empty()) == 0);
        assert(sum_len(seq![p]) == sum_len((seq![p]).drop_last()) + (seq![p]).last().1.len());
    } else {
        assert((seq![p] + s).drop_last() =~= seq![p] + s.drop_last());
        assert((seq![p] + s).last() == s.last());
        lemma_sum_len_cons(p, s.drop_last());
    }
}

impl TrieCacheModel {
    /// Well-formedness: distinct keys, exact byte accounting, every stored
    /// value under the size cap, and all bounds respected.
    pub open spec fn wf(self) -> bool {
        &&& distinct_keys(self.entries)
        &&& self.total_size == sum_len(self.entries)
        &&& self.entries.len() <= self.cache_capacity
        &&& self.deletions.len() <= self.deletions_capacity
        &&& 1 <= self.cache_capacity
        &&& 1 <= self.total_size_limit
        &&& self.total_size_limit + TRIE_LIMIT_CACHED_VALUE_SIZE <= u64::MAX
        &&& 0 <= self.deletions_capacity
        &&& forall|i: int|
            0 <= i < self.entries.len() ==> #[trigger] self.entries[i].1.len()
                < TRIE_LIMIT_CACHED_VALUE_SIZE
    }
}

/// Whether `put` must evict before inserting: the byte budget is exceeded or
/// the entry count has reached the capacity.
pub open spec fn evict_needed(m: TrieCacheModel) -> bool {
    m.total_size > m.total_size_limit || m.entries.len() >= m.cache_capacity
}

/// The eviction loop run by `put`: as long as eviction is needed, try the
/// head of the deletion queue first, and fall back to the least recently
/// used entry.
pub open spec fn spec_evict_loop(m: TrieCacheModel) -> TrieCacheModel
    decreases m.entries.len() + m.deletions.len(),
    via spec_evict_loop_decreases
{
    if !evict_needed(m) {
        m
    } else if m.deletions.len() > 0 && has_key(m.entries, m.deletions[0]) {
        let i = key_index(m.entries, m.deletions[0]);
        spec_evict_loop(
            TrieCacheModel {
                entries: m.entries.remove(i),
                deletions: m.deletions.drop_first(),
                total_size: m.total_size - m.entries[i].1.len(),
                ..m
            },
        )
    } else if m.entries.len() > 0 {
        spec_evict_loop(
            TrieCacheModel {
                entries: m.entries.drop_last(),
                deletions: if m.deletions.len() > 0 {
                    m.deletions.drop_first()
                } else {
                    m.deletions
                },
                total_size: m.total_size - m.entries.last().1.len(),
                ..m
            },
        )
    } else {
        // Over budget with an empty cache: unreachable from a well-formed
        // state.
        m
    }
}

#[via_fn]
proof fn spec_evict_loop_decreases(m: TrieCacheModel) {
    if evict_needed(m) && m.deletions.len() > 0 && has_key(m.entries, m.deletions[0]) {
        lemma_key_index(m.entries, m.deletions[0]);
    }
}

/// Inserting `(k, v)` into the LRU after the eviction loop has made room.
pub open spec fn spec_insert(m: TrieCacheModel, k: CryptoHash, v: Seq<u8>) -> TrieCacheModel {
    if has_key(m.entries, k) {
        TrieCacheModel {
            entries: entry_to_front(m.entries, k, v),
            total_size: m.total_size + v.len() - value_of(m.entries, k).len(),
            ..m
        }
    } else {
        TrieCacheModel {
            entries: seq![(k, v)] + m.entries,
            total_size: m.total_size + v.len(),
            ..m
        }
    }
}

/// What `put(k, v)` does to a well-formed shard cache.
pub open spec fn spec_put(m: TrieCacheModel, k: CryptoHash, v: Seq<u8>) -> TrieCacheModel {
    spec_insert(spec_evict_loop(m), k, v)
}

/// What `pop(k)` does: the new state and the entry that spilled out of the
/// deletion queue and was evicted, if any.
pub open spec fn spec_pop(m: TrieCacheModel, k: CryptoHash) -> (
    TrieCacheModel,
    Option<(CryptoHash, Seq<u8>)>,
) {
    if !has_key(m.entries, k) {
        (m, None)
    } else {
        let (d1, spilled) = spec_bounded_put(m.deletions, m.deletions_capacity as nat, k);
        match spilled {
            None => (TrieCacheModel { deletions: d1, ..m }, None),
            Some(k2) => if has_key(m.entries, k2) {
                let i = key_index(m.entries, k2);
                (
                    TrieCacheModel {
                        entries: m.entries.remove(i),
                        deletions: d1,
                        total_size: m.total_size - m.entries[i].1.len(),
                        ..m
                    },
                    Some((k2, m.entries[i].1)),
                )
            } else {
                (TrieCacheModel { deletions: d1, ..m }, None)
            },
        }
    }
}

/// What `get(k)` does to the state: a hit is promoted to the most-recent
/// position, a miss changes nothing; sizes never change.
pub open spec fn spec_get(m: TrieCacheModel, k: CryptoHash) -> TrieCacheModel {
    if has_key(m.entries, k) {
        TrieCacheModel { entries: entry_to_front(m.entries, k, value_of(m.entries, k)), ..m }
    } else {
        m
    }
}

/// The eviction loop preserves well-formedness except for the bounds it is
/// working towards, and establishes those on exit.
pub proof fn lemma_evict_loop_wf(m: TrieCacheModel)
    requires
        m.wf(),
    ensures
        spec_evict_loop(m).wf(),
        !evict_needed(spec_evict_loop(m)),
        spec_evict_loop(m).cache_capacity == m.cache_capacity,
        spec_evict_loop(m).deletions_capacity == m.deletions_capacity,
        spec_evict_loop(m).total_size_limit == m.total_size_limit,
    decreases m.entries.len() + m.deletions.len(),
{
    if !evict_needed(m) {
    } else {
        assert(m.entries.len() > 0) by {
            if m.entries.len() == 0 {
                assert(m.total_size == 0);
            }
        }
        if m.deletions.len() > 0 && has_key(m.entries, m.deletions[0]) {
            let i = key_index(m.entries, m.deletions[0]);
            lemma_key_index(m.entries, m.deletions[0]);
            lemma_sum_len_remove(m.entries, i);
            lemma_distinct_remove_keys(m.entries, i);
            lemma_evict_loop_wf(
                TrieCacheModel {
                    entries: m.entries.remove(i),
                    deletions: m.deletions.drop_first(),
                    total_size: m.total_size - m.entries[i].1.len(),
                    ..m
                },
            );
        } else {
            let i = m.entries.len() - 1;
            assert(m.entries.drop_last() =~= m.entries.remove(i));
            lemma_sum_len_remove(m.entries, i);
            lemma_distinct_remove_keys(m.entries, i);
            lemma_evict_loop_wf(
                TrieCacheModel {
                    entries: m.entries.drop_last(),
                    deletions: if m.deletions.len() > 0 {
                        m.deletions.drop_first()
                    } else {
                        m.deletions
                    },
                    total_size: m.total_size - m.entries.last().1.len(),
                    ..m
                },
            );
        }
    }
}

/// `put` keeps the state well formed and bounded: the entry count stays
/// within the capacity, and the byte total overshoots the budget by less
/// than the one value just accepted.
pub proof fn lemma_put_wf(m: TrieCacheModel, k: CryptoHash, v: Seq<u8>)
    requires
        m.wf(),
        v.len() < TRIE_LIMIT_CACHED_VALUE_SIZE,
    ensures
        spec_put(m, k, v).wf(),
        spec_put(m, k, v).total_size <= m.total_size_limit + v.len(),
        spec_put(m, k, v).entries.len() <= m.cache_capacity,
        spec_put(m, k, v).cache_capacity == m.cache_capacity,
        spec_put(m, k, v).deletions_capacity == m.deletions_capacity,
        spec_put(m, k, v).total_size_limit == m.total_size_limit,
{
    lemma_evict_loop_wf(m);
    let m1 = spec_evict_loop(m);
    let m2 = spec_put(m, k, v);
    if has_key(m1.entries, k) {
        let i = key_index(m1.entries, k);
        lemma_key_index(m1.entries, k);
        lemma_sum_len_remove(m1.entries, i);
        lemma_sum_len_cons((k, v), m1.entries.remove(i));
        lemma_distinct_remove_keys(m1.entries, i);
        assert forall|p: int, q: int| 0 <= p < q < m2.entries.len() implies m2.entries[p].0
            != m2.entries[q].0 by {
            if p > 0 {
                assert(m2.entries[p] == m1.entries.remove(i)[p - 1]);
                assert(m2.entries[q] == m1.entries.remove(i)[q - 1]);
            } else {
                assert(m2.entries[q] == m1.entries.remove(i)[q - 1]);
                let j = if q - 1 < i {
                    q - 1
                } else {
                    q
                };
                assert(m1.entries.remove(i)[q - 1] == m1.entries[j]);
                if m1.entries[j].0 == k {
                    lemma_key_index_at(m1.entries, j);
                }
            }
        }
    } else {
        lemma_sum_len_cons((k, v), m1.entries);
        assert forall|p: int, q: int| 0 <= p < q < m2.entries.len() implies m2.entries[p].0
            != m2.entries[q].0 by {
            if p > 0 {
                assert(m2.entries[p] == m1.entries[p - 1]);
                assert(m2.entries[q] == m1.entries[q - 1]);
            } else {
                assert(m2.entries[q] == m1.entries[q - 1]);
                lemma_key_index(m1.entries, k);
            }
        }
    }
}

/// `pop` keeps the state well formed.
pub proof fn lemma_pop_wf(m: TrieCacheModel, k: CryptoHash)
    requires
        m.wf(),
    ensures
        spec_pop(m, k).0.wf(),
        spec_pop(m, k).0.cache_capacity == m.cache_capacity,
        spec_pop(m, k).0.deletions_capacity == m.deletions_capacity,
        spec_pop(m, k).0.total_size_limit == m.total_size_limit,
{
    if has_key(m.entries, k) {
        let (d1, spilled) = spec_bounded_put(m.deletions, m.deletions_capacity as nat, k);
        match spilled {
            None => {},
            Some(k2) => {
                if has_key(m.entries, k2) {
                    let i = key_index(m.entries, k2);
                    lemma_key_index(m.entries, k2);
                    lemma_sum_len_remove(m.entries, i);
                    lemma_distinct_remove_keys(m.entries, i);
                }
            },
        }
    }
}

/// `get` keeps the state well formed and never changes the byte total.
pub proof fn lemma_get_wf(m: TrieCacheModel, k: CryptoHash)
    requires
        m.wf(),
    ensures
        spec_get(m, k).wf(),
        spec_get(m, k).total_size == m.total_size,
        spec_get(m, k).entries.len() == m.entries.len(),
{
    if has_key(m.entries, k) {
        let i = key_index(m.entries, k);
        lemma_key_index(m.entries, k);
        lemma_sum_len_remove(m.entries, i);
        lemma_sum_len_cons((k, value_of(m.entries, k)), m.entries.remove(i));
        lemma_distinct_remove_keys(m.entries, i);
        let t = spec_get(m, k).entries;
        assert forall|p: int, q: int| 0 <= p < q < t.len() implies t[p].0 != t[q].0 by {
            if p > 0 {
                assert(t[p] == m.entries.remove(i)[p - 1]);
                assert(t[q] == m.entries.remove(i)[q - 1]);
            } else {
                assert(t[q] == m.entries.remove(i)[q - 1]);
                let j = if q - 1 < i {
                    q - 1
                } else {
                    q
                };
                assert(m.entries.remove(i)[q - 1] == m.entries[j]);
                if m.entries[j].0 == k {
                    lemma_key_index_at(m.entries, j);
                }
            }
        }
    }
}

/// Putting the same pair again right after a `put` that left the cache
/// strictly within both bounds changes nothing: the entry is already at the
/// most-recent position with that value, and no eviction runs. (With the
/// byte budget or the entry capacity already reached, a repeated `put` may
/// evict further entries, so the restriction is necessary.)
pub proof fn lemma_put_idempotent(m: TrieCacheModel, k: CryptoHash, v: Seq<u8>)
    requires
        m.wf(),
        v.len() < TRIE_LIMIT_CACHED_VALUE_SIZE,
        spec_put(m, k, v).total_size <= m.total_size_limit,
        spec_put(m, k, v).entries.len() < m.cache_capacity,
    ensures
        spec_put(spec_put(m, k, v), k, v) == spec_put(m, k, v),
{
    lemma_put_wf(m, k, v);
    let m1 = spec_put(m, k, v);
    assert(!evict_needed(m1));
    assert(m1.entries[0] == (k, v)) by {
        lemma_evict_loop_wf(m);
        let m0 = spec_evict_loop(m);
        if has_key(m0.entries, k) {
            lemma_key_index(m0.entries, k);
        }
    }
    assert(has_key(m1.entries, k) && key_index(m1.entries, k) == 0) by {
        lemma_key_index_at(m1.entries, 0);
    }
    assert(value_of(m1.entries, k) == v);
    let m2 = spec_put(m1, k, v);
    assert(m2.entries =~= m1.entries) by {
        assert(entry_to_front(m1.entries, k, v) =~= seq![(k, v)] + m1.entries.remove(0));
    }
    assert(m2 =~= m1);
}

/// One batched-update step: a value with a positive reference count and an
/// admissible size is `put`; a tombstone or an absent value is `pop`ped; an
/// oversized value changes nothing.
pub open spec fn spec_update_op(m: TrieCacheModel, op: (CryptoHash, Option<Seq<u8>>)) -> TrieCacheModel {
    match op.1 {
        Some(bytes) => {
            let decoded = spec_decode_value_with_rc(bytes);
            match decoded.0 {
                Some(value) => if value.len() < TRIE_LIMIT_CACHED_VALUE_SIZE {
                    spec_put(m, op.0, value)
                } else {
                    m
                },
                None => spec_pop(m, op.0).0,
            }
        },
        None => spec_pop(m, op.0).0,
    }
}

/// Batched updates are the sequential composition of their steps, in order.
pub open spec fn spec_update_cache(
    m: TrieCacheModel,
    ops: Seq<(CryptoHash, Option<Seq<u8>>)>,
) -> TrieCacheModel
    decreases ops.len(),
{
    if ops.len() == 0 {
        m
    } else {
        spec_update_cache(spec_update_op(m, ops[0]), ops.drop_first())
    }
}

/// The view of an operation list handed to `update_cache`.
pub open spec fn ops_view(ops: Seq<(CryptoHash, Option<Vec<u8>>)>) -> Seq<
    (CryptoHash, Option<Seq<u8>>),
> {
    ops.map_values(
        |p: (CryptoHash, Option<Vec<u8>>)|
            (
                p.0,
                match p.1 {
                    Some(v) => Some(v@),
                    None => None,
                },
            ),
    )
}

/// The shard cache core. Not thread safe by itself; the thread-safe handle
/// is [`TrieCache`].
pub struct TrieCacheInner {
    cache: LruCache<CryptoHash, Vec<u8>>,
    deletions: BoundedQueue<CryptoHash>,
    total_size: u64,
    total_size_limit: u64,
    shard_id: u32,
    is_view: bool,
}

impl View for TrieCacheInner {
    type V = TrieCacheModel;

    closed spec fn view(&self) -> TrieCacheModel {
        TrieCacheModel {
            entries: lru_entries(self.cache),
            deletions: self.deletions@,
            total_size: self.total_size as int,
            cache_capacity: lru_capacity(self.cache) as int,
            deletions_capacity: self.deletions.spec_capacity() as int,
            total_size_limit: self.total_size_limit as int,
        }
    }
}

impl TrieCacheInner {
    pub open spec fn wf(&self) -> bool {
        self@.wf()
    }

    /// A fresh cache. The entry capacity and the byte budget are strictly
    /// positive; the byte budget must leave room under `u64::MAX` for the
    /// bounded overshoot of one accepted value.
    pub fn new(
        cache_capacity: usize,
        deletions_queue_capacity: usize,
        total_size_limit: u64,
        shard_id: u32,
        is_view: bool,
    ) -> (r: TrieCacheInner)
        requires
            cache_capacity >= 1,
            1 <= total_size_limit <= u64::MAX - TRIE_LIMIT_CACHED_VALUE_SIZE as u64,
        ensures
            r.wf(),
            r@.entries == Seq::<(CryptoHash, Seq<u8>)>::empty(),
            r@.deletions == Seq::<CryptoHash>::empty(),
            r@.total_size == 0,
            r@.cache_capacity == cache_capacity as int,
            r@.deletions_capacity == deletions_queue_capacity as int,
            r@.total_size_limit == total_size_limit as int,
    {
        TrieCacheInner {
            cache: lru_new(cache_capacity),
            deletions: BoundedQueue::new(deletions_queue_capacity),
            total_size: 0,
            total_size_limit,
            shard_id,
            is_view,
        }
    }

    /// Looks `key` up, refreshing its recency on a hit. Sizes never change.
    pub fn get(&mut self, key: &CryptoHash) -> (r: Option<Vec<u8>>)
        requires
            old(self).wf(),
        ensures
            final(self).wf(),
            final(self)@ == spec_get(old(self)@, *key),
            has_key(old(self)@.entries, *key) ==> (r matches Some(v) && v@ == value_of(
                old(self)@.entries,
                *key,
            )),
            !has_key(old(self)@.entries, *key) ==> r is None,
    {
        proof {
            lemma_get_wf(self@, *key);
        }
        lru_get(&mut self.cache, key)
    }

    /// Empties the cache and the deletion queue and resets the accounting.
    pub fn clear(&mut self)
        ensures
            final(self).wf() <== old(self).wf(),
            final(self)@.entries == Seq::<(CryptoHash, Seq<u8>)>::empty(),
            final(self)@.deletions == Seq::<CryptoHash>::empty(),
            final(self)@.total_size == 0,
            final(self)@.cache_capacity == old(self)@.cache_capacity,
            final(self)@.deletions_capacity == old(self)@.deletions_capacity,
            final(self)@.total_size_limit == old(self)@.total_size_limit,
    {
        self.total_size = 0;
        self.deletions.clear();
        lru_clear(&mut self.cache);
    }

    /// Inserts `(key, value)`, evicting first — deletion-queue hashes ahead
    /// of least-recently-used entries — until the byte total and the entry
    /// count are within bounds.
    pub fn put(&mut self, key: CryptoHash, value: Vec<u8>)
        requires
            old(self).wf(),
            value@.len() < TRIE_LIMIT_CACHED_VALUE_SIZE,
        ensures
            final(self).wf(),
            final(self)@ == spec_put(old(self)@, key, value@),
            final(self)@.total_size <= old(self)@.total_size_limit + value@.len(),
            final(self)@.entries.len() <= old(self)@.cache_capacity,
    {
        proof {
            lemma_put_wf(old(self)@, key, value@);
        }
        while self.total_size > self.total_size_limit || self.len() == lru_cap(&self.cache)
            invariant
                self.wf(),
                self@.cache_capacity == old(self)@.cache_capacity,
                self@.deletions_capacity == old(self)@.deletions_capacity,
                self@.total_size_limit == old(self)@.total_size_limit,
                spec_evict_loop(self@) == spec_evict_loop(old(self)@),
            decreases self@.entries.len() + self@.deletions.len(),
        {
            let ghost m_pre = self@;
            assert(evict_needed(m_pre));
            assert(m_pre.entries.len() > 0) by {
                if m_pre.entries.len() == 0 {
                    assert(m_pre.total_size == 0);
                }
            }
            // First, try to evict using the head of the deletion queue.
            let mut deletions_hit = false;
            match self.deletions.pop() {
                Some(key_to_evict) => {
                    proof {
                        if has_key(m_pre.entries, key_to_evict) {
                            let i = key_index(m_pre.entries, key_to_evict);
                            lemma_key_index(m_pre.entries, key_to_evict);
                            lemma_sum_len_remove(m_pre.entries, i);
                            lemma_sum_len_item(m_pre.entries, i);
                            lemma_distinct_remove_keys(m_pre.entries, i);
                        }
                    }
                    match lru_pop(&mut self.cache, &key_to_evict) {
                        Some(evicted) => {
                            self.total_size = self.total_size - evicted.len() as u64;
                            deletions_hit = true;
                        },
                        None => {},
                    }
                },
                None => {},
            }
            if !deletions_hit {
                // Second, evict the least recently used entry.
                let ghost m_mid = self@;
                proof {
                    let i = m_mid.entries.len() - 1;
                    assert(m_mid.entries.drop_last() =~= m_mid.entries.remove(i));
                    lemma_sum_len_remove(m_mid.entries, i);
                    lemma_distinct_remove_keys(m_mid.entries, i);
                    lemma_sum_len_item(m_mid.entries, i);
                }
                let popped = lru_pop_lru(&mut self.cache).unwrap();
                self.total_size = self.total_size - popped.1.len() as u64;
            }
            proof {
                if m_pre.deletions.len() > 0 && has_key(m_pre.entries, m_pre.deletions[0]) {
                    let i = key_index(m_pre.entries, m_pre.deletions[0]);
                    assert(self@ =~= TrieCacheModel {
                        entries: m_pre.entries.remove(i),
                        deletions: m_pre.deletions.drop_first(),
                        total_size: m_pre.total_size - m_pre.entries[i].1.len(),
                        ..m_pre
                    });
                } else {
                    assert(self@ =~= TrieCacheModel {
                        entries: m_pre.entries.drop_last(),
                        deletions: if m_pre.deletions.len() > 0 {
                            m_pre.deletions.drop_first()
                        } else {
                            m_pre.deletions
                        },
                        total_size: m_pre.total_size - m_pre.entries.last().1.len(),
                        ..m_pre
                    });
                }
                assert(spec_evict_loop(m_pre) == spec_evict_loop(self@));
            }
        }
        // Insert the value.
        let ghost m1 = self@;
        proof {
            lemma_evict_loop_wf(old(self)@);
            assert(m1 == spec_evict_loop(old(self)@));
            if has_key(m1.entries, key) {
                let i = key_index(m1.entries, key);
                lemma_key_index(m1.entries, key);
                lemma_sum_len_remove(m1.entries, i);
                lemma_sum_len_cons((key, value@), m1.entries.remove(i));
                lemma_sum_len_item(m1.entries, i);
            } else {
                lemma_sum_len_cons((key, value@), m1.entries);
            }
        }
        self.total_size = self.total_size + value.len() as u64;
        match lru_push(&mut self.cache, key, value) {
            Some(evicted) => {
                // The loop has made room, so the cache cannot have been
                // full: the pair returned is the replaced entry for `key`
                // itself.
                assert(evicted.0 == key);
                self.total_size = self.total_size - evicted.1.len() as u64;
            },
            None => {},
        }
        proof {
            lemma_put_wf(old(self)@, key, value@);
            assert(self@ =~= spec_put(old(self)@, key, value@));
        }
    }

    /// Queues `key` for deferred deletion if it is cached. Returns the entry
    /// actually evicted — the hash that spilled out of the deletion queue
    /// and was still cached — if there is one.
    pub fn pop(&mut self, key: &CryptoHash) -> (r: Option<(CryptoHash, Vec<u8>)>)
        requires
            old(self).wf(),
        ensures
            final(self).wf(),
            final(self)@ == spec_pop(old(self)@, *key).0,
            match r {
                Some(p) => spec_pop(old(self)@, *key).1 == Some((p.0, p.1@)),
                None => spec_pop(old(self)@, *key).1 is None,
            },
    {
        proof {
            lemma_pop_wf(old(self)@, *key);
        }
        let ghost m = self@;
        if lru_contains(&self.cache, key) {
            match self.deletions.put(*key) {
                Some(key_to_delete) => {
                    proof {
                        if has_key(m.entries, key_to_delete) {
                            let i = key_index(m.entries, key_to_delete);
                            lemma_key_index(m.entries, key_to_delete);
                            lemma_sum_len_remove(m.entries, i);
                            lemma_sum_len_item(m.entries, i);
                            lemma_distinct_remove_keys(m.entries, i);
                        }
                    }
                    match lru_pop(&mut self.cache, &key_to_delete) {
                        Some(evicted_value) => {
                            self.total_size = self.total_size - evicted_value.len() as u64;
                            Some((key_to_delete, evicted_value))
                        },
                        None => None,
                    }
                },
                None => None,
            }
        } else {
            None
        }
    }

    /// Removes and returns the least recently used entry, if any.
    pub fn pop_lru(&mut self) -> (r: Option<(CryptoHash, Vec<u8>)>)
        requires
            old(self).wf(),
        ensures
            final(self).wf(),
            old(self)@.entries.len() > 0 ==> (r matches Some(p) && p.0 == old(
                self,
            )@.entries.last().0 && p.1@ == old(self)@.entries.last().1),
            old(self)@.entries.len() > 0 ==> final(self)@.entries == old(self)@.entries.drop_last(),
            old(self)@.entries.len() > 0 ==> final(self)@.total_size == old(self)@.total_size - old(
                self,
            )@.entries.last().1.len(),
            old(self)@.entries.len() == 0 ==> r is None && final(self)@ == old(self)@,
            final(self)@.deletions == old(self)@.deletions,
            final(self)@.cache_capacity == old(self)@.cache_capacity,
            final(self)@.deletions_capacity == old(self)@.deletions_capacity,
            final(self)@.total_size_limit == old(self)@.total_size_limit,
    {
        let ghost m = self@;
        proof {
            if m.entries.len() > 0 {
                let i = m.entries.len() - 1;
                assert(m.entries.drop_last() =~= m.entries.remove(i));
                lemma_sum_len_remove(m.entries, i);
                lemma_sum_len_item(m.entries, i);
                lemma_distinct_remove_keys(m.entries, i);
            }
        }
        match lru_pop_lru(&mut self.cache) {
            Some(p) => {
                self.total_size = self.total_size - p.1.len() as u64;
                Some(p)
            },
            None => None,
        }
    }

    /// Whether `key` is cached; recency is not touched.
    pub fn contains(&self, key: &CryptoHash) -> (r: bool)
        ensures
            r == has_key(self@.entries, *key),
    {
        lru_contains(&self.cache, key)
    }

    pub fn len(&self) -> (r: usize)
        ensures
            r == self@.entries.len(),
    {
        lru_len(&self.cache)
    }

    pub fn current_total_size(&self) -> (r: u64)
        ensures
            r == self@.total_size,
    {
        self.total_size
    }
}

/// The shard cache as shared between the main thread and prefetch workers.
/// The surrounding (unverified) layer holds it behind one mutex; all methods
/// here take it exclusively, standing for that mutex being held.
pub struct TrieCache {
    inner: TrieCacheInner,
}

impl View for TrieCache {
    type V = TrieCacheModel;

    closed spec fn view(&self) -> TrieCacheModel {
        self.inner@
    }
}

impl TrieCache {
    pub open spec fn wf(&self) -> bool {
        self@.wf()
    }

    /// A cache with the default capacities.
    pub fn new(shard_id: u32, is_view: bool) -> (r: TrieCache)
        ensures
            r.wf(),
            r@.entries == Seq::<(CryptoHash, Seq<u8>)>::empty(),
            r@.deletions == Seq::<CryptoHash>::empty(),
            r@.total_size == 0,
            r@.cache_capacity == crate::primitives::TRIE_DEFAULT_SHARD_CACHE_SIZE as int,
            r@.deletions_capacity == crate::primitives::DEFAULT_SHARD_CACHE_DELETIONS_QUEUE_CAPACITY as int,
            r@.total_size_limit == crate::primitives::DEFAULT_SHARD_CACHE_TOTAL_SIZE_LIMIT as int,
    {
        Self::with_capacities(crate::primitives::TRIE_DEFAULT_SHARD_CACHE_SIZE, shard_id, is_view)
    }

    /// A cache with a chosen entry capacity and the default byte budget and
    /// deletion-queue capacity.
    pub fn with_capacities(cap: usize, shard_id: u32, is_view: bool) -> (r: TrieCache)
        requires
            cap >= 1,
        ensures
            r.wf(),
            r@.entries == Seq::<(CryptoHash, Seq<u8>)>::empty(),
            r@.deletions == Seq::<CryptoHash>::empty(),
            r@.total_size == 0,
            r@.cache_capacity == cap as int,
            r@.deletions_capacity == crate::primitives::DEFAULT_SHARD_CACHE_DELETIONS_QUEUE_CAPACITY as int,
            r@.total_size_limit == crate::primitives::DEFAULT_SHARD_CACHE_TOTAL_SIZE_LIMIT as int,
    {
        TrieCache {
            inner: TrieCacheInner::new(
                cap,
                crate::primitives::DEFAULT_SHARD_CACHE_DELETIONS_QUEUE_CAPACITY,
                crate::primitives::DEFAULT_SHARD_CACHE_TOTAL_SIZE_LIMIT,
                shard_id,
                is_view,
            ),
        }
    }

    pub fn get(&mut self, key: &CryptoHash) -> (r: Option<Vec<u8>>)
        requires
            old(self).wf(),
        ensures
            final(self).wf(),
            final(self)@ == spec_get(old(self)@, *key),
            has_key(old(self)@.entries, *key) ==> (r matches Some(v) && v@ == value_of(
                old(self)@.entries,
                *key,
            )),
            !has_key(old(self)@.entries, *key) ==> r is None,
    {
        self.inner.get(key)
    }

    pub fn clear(&mut self)
        requires
            old(self).wf(),
        ensures
            final(self).wf(),
            final(self)@.entries == Seq::<(CryptoHash, Seq<u8>)>::empty(),
            final(self)@.deletions == Seq::<CryptoHash>::empty(),
            final(self)@.total_size == 0,
            final(self)@.cache_capacity == old(self)@.cache_capacity,
            final(self)@.deletions_capacity == old(self)@.deletions_capacity,
            final(self)@.total_size_limit == old(self)@.total_size_limit,
    {
        self.inner.clear()
    }

    /// Inserts `(key, value)`, evicting first until the bounds hold.
    pub fn put(&mut self, key: CryptoHash, value: Vec<u8>)
        requires
            old(self).wf(),
            value@.len() < TRIE_LIMIT_CACHED_VALUE_SIZE,
        ensures
            final(self).wf(),
            final(self)@ == spec_put(old(self)@, key, value@),
            final(self)@.total_size <= old(self)@.total_size_limit + value@.len(),
            final(self)@.entries.len() <= old(self)@.cache_capacity,
    {
        self.inner.put(key, value)
    }

    /// Queues `key` for deferred deletion if it is cached; see
    /// [`TrieCacheInner::pop`].
    pub fn pop(&mut self, key: &CryptoHash) -> (r: Option<(CryptoHash, Vec<u8>)>)
        requires
            old(self).wf(),
        ensures
            final(self).wf(),
            final(self)@ == spec_pop(old(self)@, *key).0,
            match r {
                Some(p) => spec_pop(old(self)@, *key).1 == Some((p.0, p.1@)),
                None => spec_pop(old(self)@, *key).1 is None,
            },
    {
        self.inner.pop(key)
    }

    /// Applies a batch of committed updates: each operation is a `put` of a
    /// decoded live value of admissible size, a no-op for an oversized one,
    /// and a deferred `pop` for a tombstone or an absent value.
    pub fn update_cache(&mut self, ops: Vec<(CryptoHash, Option<Vec<u8>>)>)
        requires
            old(self).wf(),
        ensures
            final(self).wf(),
            final(self)@ == spec_update_cache(old(self)@, ops_view(ops@)),
    {
        let n = ops.len();
        let mut i: usize = 0;
        proof {
            assert(ops@.skip(0) =~= ops@);
        }
        while i < n
            invariant
                self.wf(),
                i <= n,
                n == ops@.len(),
                spec_update_cache(old(self)@, ops_view(ops@)) == spec_update_cache(
                    self@,
                    ops_view(ops@.skip(i as int)),
                ),
            decreases n - i,
        {
            let ghost pre = self@;
            let ghost tail = ops_view(ops@.skip(i as int));
            let (hash, opt_value_rc) = read_op(&ops, i);
            proof {
                assert(tail[0] == (hash, match opt_value_rc {
                    Some(v) => Some::<Seq<u8>>(v@),
                    None => None::<Seq<u8>>,
                }));
                assert(ops_view(ops@.skip(i as int + 1)) =~= tail.drop_first());
            }
            match opt_value_rc {
                Some(value_rc) => {
                    let (decoded, _rc) = decode_value_with_rc(value_rc.as_slice());
                    match decoded {
                        Some(value) => {
                            if value.len() < TRIE_LIMIT_CACHED_VALUE_SIZE {
                                self.inner.put(hash, vstd::slice::slice_to_vec(value));
                            }
                        },
                        None => {
                            self.inner.pop(&hash);
                        },
                    }
                },
                None => {
                    self.inner.pop(&hash);
                },
            }
            proof {
                assert(self@ == spec_update_op(pre, tail[0]));
            }
            i = i + 1;
        }
        proof {
            assert(ops_view(ops@.skip(n as int)) =~= Seq::<(CryptoHash, Option<Seq<u8>>)>::empty());
        }
    }

    pub fn len(&self) -> (r: usize)
        ensures
            r == self@.entries.len(),
    {
        self.inner.len()
    }

    pub fn current_total_size(&self) -> (r: u64)
        ensures
            r == self@.total_size,
    {
        self.inner.current_total_size()
    }
}

/// Reads the `i`th operation of a batch, cloning the hash and the optional
/// raw value.
fn read_op(ops: &Vec<(CryptoHash, Option<Vec<u8>>)>, i: usize) -> (r: (
    CryptoHash,
    Option<Vec<u8>>,
))
    requires
        i < ops@.len(),
    ensures
        r.0 == ops@[i as int].0,
        match r.1 {
            Some(v) => ops@[i as int].1 matches Some(w) && v@ == w@,
            None => ops@[i as int].1 is None,
        },
{
    let p = &ops[i];
    let v = match &p.1 {
        Some(value) => Some(vstd::slice::slice_to_vec(value.as_slice())),
        None => None,
    };
    (p.0, v)
}

} // verus!
