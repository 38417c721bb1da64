//! The prefetch staging area: a shared map of in-flight and freshly
//! prefetched values with a byte budget.
//!
//! Before any thread reads a hash from the raw store, it reserves a slot
//! here; the slot tells every later requester that the read is already in
//! flight. A worker completes its slot with the fetched bytes; the main
//! thread moves them to the shard cache and only then releases the slot, so
//! no second raw read for the same hash can start in between.
//!
//! The surrounding (unverified) layer holds the staging area behind one
//! mutex; the methods here take it exclusively, standing for that mutex
//! being held.

use crate::assoc_map::{has_key, key_index, value_of, AssocMap};
use crate::primitives::CryptoHash;
use vstd::prelude::*;

verus! {

/// Memory budget of one staging area, in bytes.
pub const MAX_PREFETCH_STAGING_MEMORY: usize = 200 * 1024 * 1024;

/// How much of the budget a pending reservation claims: the largest value a
/// stored entry may have.
pub const PREFETCH_RESERVED_BYTES_PER_SLOT: usize = 4 * 1024 * 1024;

/// One staging slot.
#[derive(Debug)]
pub enum PrefetchSlot {
    /// Reserved by a prefetch worker, which will complete it.
    PendingPrefetch,
    /// Reserved by the main thread, which is reading the value itself.
    PendingFetch,
    /// The fetched bytes, waiting to be moved to the shard cache.
    Done(Vec<u8>),
}

/// Whether two slots carry the same tag, whatever bytes a `Done` holds.
pub fn prefetch_state_matches(expected: PrefetchSlot, actual: &PrefetchSlot) -> (r: bool)
    ensures
        r == ((expected is PendingPrefetch && *actual is PendingPrefetch) || (expected
            is PendingFetch && *actual is PendingFetch) || (expected is Done && *actual is Done)),
{
    match (expected, actual) {
        (PrefetchSlot::PendingPrefetch, PrefetchSlot::PendingPrefetch) => true,
        (PrefetchSlot::PendingFetch, PrefetchSlot::PendingFetch) => true,
        (PrefetchSlot::Done(_), PrefetchSlot::Done(_)) => true,
        _ => false,
    }
}

/// What a reservation attempt answers.
#[derive(Debug)]
pub enum PrefetcherResult {
    /// The slot was vacant and is now reserved for the caller, which must
    /// perform the raw read.
    SlotReserved,
    /// Another thread is already fetching this hash.
    Pending,
    /// The value is already here.
    Prefetched(Vec<u8>),
    /// The budget does not admit one more reservation.
    MemoryLimitReached,
}

/// The bytes a slot counts against the budget: a full reservation while
/// pending, the value's length once done.
pub open spec fn slot_cost(s: PrefetchSlot) -> int {
    match s {
        PrefetchSlot::Done(v) => v@.len() as int,
        _ => PREFETCH_RESERVED_BYTES_PER_SLOT as int,
    }
}

/// The total cost of a slot sequence.
pub open spec fn sum_cost(s: Seq<(CryptoHash, PrefetchSlot)>) -> int
    decreases s.len(),
{
    if s.len() == 0 {
        0
    } else {
        sum_cost(s.drop_last()) + slot_cost(s.last().1)
    }
}

pub proof fn lemma_sum_cost_remove(s: Seq<(CryptoHash, PrefetchSlot)>, i: int)
    requires
        0 <= i < s.len(),
    ensures
        sum_cost(s.remove(i)) == sum_cost(s) - slot_cost(s[i].1),
    decreases s.len(),
{
    if i == s.len() - 1 {
        assert(s.remove(i) =~= s.drop_last());
    } else {
        assert(s.remove(i).drop_last() =~= s.drop_last().remove(i));
        assert(s.remove(i).last() == s.last());
        lemma_sum_cost_remove(s.drop_last(), i);
    }
}

pub proof fn lemma_sum_cost_nonneg(s: Seq<(CryptoHash, PrefetchSlot)>)
    ensures
        sum_cost(s) >= 0,
    decreases s.len(),
{
    if s.len() > 0 {
        lemma_sum_cost_nonneg(s.drop_last());
        assert(slot_cost(s.last().1) >= 0);
    }
}

pub proof fn lemma_sum_cost_item(s: Seq<(CryptoHash, PrefetchSlot)>, i: int)
    requires
        0 <= i < s.len(),
    ensures
        slot_cost(s[i].1) <= sum_cost(s),
{
    lemma_sum_cost_remove(s, i);
    lemma_sum_cost_nonneg(s.remove(i));
}

pub proof fn lemma_sum_cost_push(s: Seq<(CryptoHash, PrefetchSlot)>, p: (CryptoHash, PrefetchSlot))
    ensures
        sum_cost(s.push(p)) == sum_cost(s) + slot_cost(p.1),
{
    assert(s.push(p).drop_last() =~= s);
}

/// The mathematical state of a staging area.
#[verifier::ext_equal]
pub ghost struct StagingModel {
    pub slots: Seq<(CryptoHash, PrefetchSlot)>,
    pub size_bytes: int,
}

impl StagingModel {
    /// The byte accounting is exact: `size_bytes` is the sum of one full
    /// reservation per pending slot and the value length per done slot.
    pub open spec fn wf(self) -> bool {
        &&& crate::assoc_map::distinct_keys(self.slots)
        &&& self.size_bytes == sum_cost(self.slots)
    }
}

/// How a reservation attempt ends.
#[derive(PartialEq, Eq, Structural)]
pub enum ReserveOutcome {
    /// The budget is exhausted; nothing changed.
    LimitReached,
    /// The value is already staged; nothing changed.
    AlreadyDone,
    /// Some thread is fetching it; nothing changed.
    AlreadyPending,
    /// The slot was vacant and is now taken.
    Reserved,
}

/// What `get_and_set_if_empty(k, slot)` does to the staging area.
pub open spec fn spec_get_and_set_if_empty(m: StagingModel, k: CryptoHash, slot: PrefetchSlot) -> (
    StagingModel,
    ReserveOutcome,
) {
    if m.size_bytes + PREFETCH_RESERVED_BYTES_PER_SLOT > MAX_PREFETCH_STAGING_MEMORY {
        (m, ReserveOutcome::LimitReached)
    } else if has_key(m.slots, k) {
        if value_of(m.slots, k) is Done {
            (m, ReserveOutcome::AlreadyDone)
        } else {
            (m, ReserveOutcome::AlreadyPending)
        }
    } else {
        (
            StagingModel {
                slots: m.slots.push((k, slot)),
                size_bytes: m.size_bytes + PREFETCH_RESERVED_BYTES_PER_SLOT,
            },
            ReserveOutcome::Reserved,
        )
    }
}

/// What `release(k)` does: the slot disappears and gives its cost back —
/// except that an in-flight worker reservation (`PendingPrefetch`) is a
/// protocol violation that the release tolerates without touching the
/// accounting.
pub open spec fn spec_release(m: StagingModel, k: CryptoHash) -> StagingModel {
    if !has_key(m.slots, k) {
        m
    } else {
        let removed = m.slots.remove(key_index(m.slots, k));
        match value_of(m.slots, k) {
            PrefetchSlot::Done(v) => StagingModel {
                slots: removed,
                size_bytes: m.size_bytes - v@.len(),
            },
            PrefetchSlot::PendingFetch => StagingModel {
                slots: removed,
                size_bytes: m.size_bytes - PREFETCH_RESERVED_BYTES_PER_SLOT,
            },
            PrefetchSlot::PendingPrefetch => StagingModel { slots: removed, ..m },
        }
    }
}

/// What `insert_fetched(k, v)` does: the worker's reservation becomes the
/// fetched bytes, and the accounting swaps one reservation for the value's
/// length.
pub open spec fn spec_insert_fetched(m: StagingModel, k: CryptoHash, v: Vec<u8>) -> StagingModel {
    StagingModel {
        slots: m.slots.remove(key_index(m.slots, k)).push((k, PrefetchSlot::Done(v))),
        size_bytes: m.size_bytes - PREFETCH_RESERVED_BYTES_PER_SLOT + v@.len(),
    }
}

/// While any slot for `k` exists, a further reservation attempt for `k` is
/// never granted, whatever it would have reserved: at most one thread is
/// ever told to perform the raw read for one hash.
pub proof fn lemma_single_flight(m: StagingModel, k: CryptoHash, slot: PrefetchSlot)
    requires
        has_key(m.slots, k),
    ensures
        spec_get_and_set_if_empty(m, k, slot).1 != ReserveOutcome::Reserved,
        spec_get_and_set_if_empty(m, k, slot).0 == m,
{
}

/// Staging area for in-flight prefetch requests and a buffer for prefetched
/// data. A slot is reserved before a raw read starts; the fetched value is
/// parked in the slot until the main thread moves it to the shard cache and
/// releases the slot.
pub struct PrefetchStagingArea {
    slots: AssocMap<PrefetchSlot>,
    size_bytes: usize,
}

impl View for PrefetchStagingArea {
    type V = StagingModel;

    closed spec fn view(&self) -> StagingModel {
        StagingModel { slots: self.slots@, size_bytes: self.size_bytes as int }
    }
}

/// What polling for a fetched value answers.
#[derive(Debug)]
pub enum StagingLookup {
    /// The value is here.
    Ready(Vec<u8>),
    /// The fetch is still in flight: sleep briefly and poll again.
    NotYet,
    /// The slot is gone: the value has been consumed (or was never there).
    Gone,
}

impl PrefetchStagingArea {
    pub open spec fn wf(&self) -> bool {
        self@.wf()
    }

    pub fn new() -> (r: PrefetchStagingArea)
        ensures
            r.wf(),
            r@.slots == Seq::<(CryptoHash, PrefetchSlot)>::empty(),
            r@.size_bytes == 0,
    {
        PrefetchStagingArea { slots: AssocMap::new(), size_bytes: 0 }
    }

    /// Returns the prefetched value if available, and otherwise atomically
    /// reserves the slot with `set_if_empty` if no request is pending yet —
    /// all after enforcing the memory budget.
    pub fn get_and_set_if_empty(&mut self, key: CryptoHash, set_if_empty: PrefetchSlot) -> (r:
        PrefetcherResult)
        requires
            old(self).wf(),
            !(set_if_empty is Done),
        ensures
            final(self).wf(),
            final(self)@ == spec_get_and_set_if_empty(old(self)@, key, set_if_empty).0,
            spec_get_and_set_if_empty(old(self)@, key, set_if_empty).1 == ReserveOutcome::LimitReached
                ==> r is MemoryLimitReached,
            spec_get_and_set_if_empty(old(self)@, key, set_if_empty).1 == ReserveOutcome::AlreadyDone
                ==> (r matches PrefetcherResult::Prefetched(v) && value_of(old(self)@.slots, key)
                matches PrefetchSlot::Done(w) && v@ == w@),
            spec_get_and_set_if_empty(old(self)@, key, set_if_empty).1
                == ReserveOutcome::AlreadyPending ==> r is Pending,
            spec_get_and_set_if_empty(old(self)@, key, set_if_empty).1 == ReserveOutcome::Reserved
                ==> r is SlotReserved,
    {
        if self.size_bytes > MAX_PREFETCH_STAGING_MEMORY - PREFETCH_RESERVED_BYTES_PER_SLOT {
            return PrefetcherResult::MemoryLimitReached;
        }
        match self.slots.get(&key) {
            Some(slot) => match slot {
                PrefetchSlot::Done(value) => PrefetcherResult::Prefetched(clone_bytes(value)),
                _ => PrefetcherResult::Pending,
            },
            None => {
                proof {
                    lemma_sum_cost_push(self@.slots, (key, set_if_empty));
                    lemma_sum_cost_nonneg(self@.slots);
                }
                self.slots.insert(key, set_if_empty);
                self.size_bytes = self.size_bytes + PREFETCH_RESERVED_BYTES_PER_SLOT;
                PrefetcherResult::SlotReserved
            },
        }
    }

    /// Parks a fetched value in the slot its worker reserved.
    pub fn insert_fetched(&mut self, key: CryptoHash, value: Vec<u8>)
        requires
            old(self).wf(),
            has_key(old(self)@.slots, key),
            value_of(old(self)@.slots, key) is PendingPrefetch,
            old(self)@.size_bytes - PREFETCH_RESERVED_BYTES_PER_SLOT + value@.len() <= usize::MAX,
        ensures
            final(self).wf(),
            final(self)@ == spec_insert_fetched(old(self)@, key, value),
    {
        proof {
            let i = key_index(self@.slots, key);
            crate::assoc_map::lemma_key_index(self@.slots, key);
            lemma_sum_cost_remove(self@.slots, i);
            lemma_sum_cost_item(self@.slots, i);
            lemma_sum_cost_push(self@.slots.remove(i), (key, PrefetchSlot::Done(value)));
            lemma_sum_cost_nonneg(self@.slots.remove(i));
        }
        self.size_bytes = self.size_bytes - PREFETCH_RESERVED_BYTES_PER_SLOT;
        self.size_bytes = self.size_bytes + value.len();
        self.slots.insert(key, PrefetchSlot::Done(value));
    }

    /// Releases the slot for `key`, giving its cost back to the budget.
    /// Called by the main thread only after the value stands in the shard
    /// cache, so a worker missing there cannot start a second fetch. An
    /// absent slot is fine (a stop may have removed it); releasing a
    /// worker's in-flight reservation would be a protocol violation, which
    /// is tolerated without touching the accounting.
    pub fn release(&mut self, key: &CryptoHash)
        requires
            old(self).wf(),
        ensures
            final(self)@ == spec_release(old(self)@, *key),
            (!has_key(old(self)@.slots, *key) || !(value_of(old(self)@.slots, *key)
                is PendingPrefetch)) ==> final(self).wf(),
    {
        proof {
            if has_key(self@.slots, *key) {
                let i = key_index(self@.slots, *key);
                crate::assoc_map::lemma_key_index(self@.slots, *key);
                lemma_sum_cost_remove(self@.slots, i);
                lemma_sum_cost_item(self@.slots, i);
                lemma_sum_cost_nonneg(self@.slots.remove(i));
            }
        }
        let dropped = self.slots.remove(key);
        match dropped {
            Some(PrefetchSlot::Done(value)) => {
                self.size_bytes = self.size_bytes - value.len();
            },
            Some(PrefetchSlot::PendingFetch) => {
                self.size_bytes = self.size_bytes - PREFETCH_RESERVED_BYTES_PER_SLOT;
            },
            None => {},
            Some(PrefetchSlot::PendingPrefetch) => {
                // A worker is still responsible for this slot; nothing to
                // give back. The in-flight fetch will complete into a slot
                // that no longer exists.
            },
        }
    }

    /// One polling step of a blocking get: the caller sleeps and retries
    /// while the answer is `NotYet`, takes the value on `Ready`, and falls
    /// back to the shard cache on `Gone`.
    pub fn poll_fetched(&self, key: &CryptoHash) -> (r: StagingLookup)
        ensures
            (has_key(self@.slots, *key) && value_of(self@.slots, *key) is Done) ==> (r matches
                StagingLookup::Ready(v) && value_of(self@.slots, *key) matches PrefetchSlot::Done(w)
                && v@ == w@),
            (has_key(self@.slots, *key) && !(value_of(self@.slots, *key) is Done)) ==> r is NotYet,
            !has_key(self@.slots, *key) ==> r is Gone,
    {
        match self.slots.get(key) {
            Some(PrefetchSlot::Done(value)) => StagingLookup::Ready(clone_bytes(value)),
            Some(_) => StagingLookup::NotYet,
            None => StagingLookup::Gone,
        }
    }

    /// Whether the slot for `key` is a worker's in-flight reservation — the
    /// state `insert_fetched` expects.
    pub fn pending_prefetch(&self, key: &CryptoHash) -> (r: bool)
        ensures
            r == (has_key(self@.slots, *key) && value_of(self@.slots, *key) is PendingPrefetch),
    {
        match self.slots.get(key) {
            Some(PrefetchSlot::PendingPrefetch) => true,
            _ => false,
        }
    }

    /// The bytes currently accounted for.
    pub fn size_bytes(&self) -> (r: usize)
        ensures
            r == self@.size_bytes,
    {
        self.size_bytes
    }

    /// The number of slots.
    pub fn slot_count(&self) -> (r: usize)
        ensures
            r == self@.slots.len(),
    {
        self.slots.len()
    }
}

/// Copies a byte vector.
pub fn clone_bytes(v: &Vec<u8>) -> (r: Vec<u8>)
    ensures
        r@ == v@,
{
    let mut out: Vec<u8> = Vec::new();
    let n = v.len();
    for i in 0..n
        invariant
            n == v@.len(),
            out@ == v@.take(i as int),
    {
        out.push(v[i]);
        proof {
            assert(out@ =~= v@.take(i as int + 1));
        }
    }
    proof {
        assert(v@.take(n as int) =~= v@);
    }
    out
}

} // verus!
