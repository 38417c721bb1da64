//! The main-thread and worker read paths over the shared shard cache and
//! prefetch staging area.
//!
//! Both paths are driven step-wise by the surrounding (unverified) layer:
//! raw-store reads and sleeps happen outside, and each step here takes the
//! shared state and the outside result as arguments. The shard cache and the
//! staging area live behind mutexes outside; a `&mut` parameter stands for
//! the respective mutex being held, and one call holding both corresponds to
//! the atomic shard-miss-then-reserve-slot sequence.

use crate::assoc_map::{assoc_insert, has_key, lemma_assoc_insert, value_of, AssocMap};
use crate::prefetch::{
    clone_bytes, spec_get_and_set_if_empty, spec_release, PrefetchSlot, PrefetchStagingArea,
    PrefetcherResult, ReserveOutcome,
};
use crate::primitives::{
    CryptoHash, RawGetResult, ShardUId, StorageError, TrieCacheMode, TrieNodesCount,
    TRIE_LIMIT_CACHED_VALUE_SIZE,
};
use crate::storage::{
    db_result_to_value, is_prefetcher_failed_error, prefetcher_failed_error, TrieStorage,
};
use crate::trie_cache::{spec_get, spec_put, TrieCache};
use vstd::prelude::*;

verus! {

/// What one step of the main-thread read path answers.
#[derive(Debug)]
pub enum MainLookup {
    /// The read is complete.
    Value(Vec<u8>),
    /// A slot is reserved (or the budget was exhausted): the caller must
    /// read the raw store and hand the result to `retrieve_after_db_read`.
    NeedsDbRead,
    /// A fetch for this hash is already in flight: the caller polls the
    /// staging area, sleeping between polls, and hands the value to
    /// `retrieve_prefetched`.
    WaitForPrefetch,
}

/// A command for a prefetching worker.
#[derive(Debug)]
pub enum IoThreadCmd {
    /// Traverse the trie towards this key, fetching the nodes on the way.
    PrefetchTrieNode(Vec<u8>),
    /// Terminate the worker.
    StopSelf,
}

/// What a worker does with one iteration of its loop.
#[derive(Debug)]
pub enum IoThreadAction {
    /// Perform the prefetch for this key.
    Prefetch(Vec<u8>),
    /// Leave the loop.
    Terminate,
    /// Nothing to do: sleep briefly and look again.
    Sleep,
}

/// One decision of the worker loop: the kill switch ends the worker before
/// any command is considered; otherwise a command is carried out and an
/// empty queue means a short sleep.
pub fn io_thread_step(kill_switch: bool, cmd: Option<IoThreadCmd>) -> (r: IoThreadAction)
    ensures
        kill_switch ==> r is Terminate,
        !kill_switch ==> (cmd matches Some(c) ==> (c is StopSelf ==> r is Terminate)),
        !kill_switch ==> (cmd matches Some(IoThreadCmd::PrefetchTrieNode(k)) ==> (r matches
        IoThreadAction::Prefetch(q) && q == k)),
        !kill_switch && cmd is None ==> r is Sleep,
{
    if kill_switch {
        IoThreadAction::Terminate
    } else {
        match cmd {
            Some(IoThreadCmd::PrefetchTrieNode(trie_key)) => IoThreadAction::Prefetch(trie_key),
            Some(IoThreadCmd::StopSelf) => IoThreadAction::Terminate,
            None => IoThreadAction::Sleep,
        }
    }
}

/// The error when a raw-store key is not eight shard bytes and a hash.
#[derive(Clone, Copy, PartialEq, Eq, Structural, Debug)]
pub struct KeyDecodeError;

/// Every key of `before` is still a key of `after`. The read paths ensure
/// this of the chunk cache across every step: nothing is ever evicted from
/// it, so a hash once remembered there is served from memory by every later
/// read in this storage's lifetime, and its raw read is never repeated.
pub open spec fn chunk_keys_retained(
    before: Seq<(CryptoHash, Vec<u8>)>,
    after: Seq<(CryptoHash, Vec<u8>)>,
) -> bool {
    forall|x: CryptoHash| #[trigger] has_key(before, x) ==> has_key(after, x)
}

/// The main-thread read path: composes the chunk cache, the shard cache, the
/// staging area and the raw store, and counts node accesses.
pub struct TrieCachingStorage {
    pub shard_uid: ShardUId,
    pub is_view: bool,
    chunk_cache: AssocMap<Vec<u8>>,
    cache_mode: TrieCacheMode,
    db_read_nodes: u64,
    mem_read_nodes: u64,
    io_kill_switch: bool,
}

/// The worker read path: shares the shard cache and the staging area with
/// its parent caching storage, never evicts the shard cache, and has no
/// chunk cache.
pub struct TriePrefetchingStorage {
    pub shard_uid: ShardUId,
}

/// What one step of the worker read path answers.
#[derive(Debug)]
pub enum WorkerLookup {
    /// The read is complete.
    Value(Vec<u8>),
    /// The slot is reserved: the caller must read the raw store and hand the
    /// result to `retrieve_after_db_read`.
    NeedsDbRead,
    /// Another thread is fetching: the caller polls the staging area and, if
    /// the slot disappears, falls back to `retrieve_after_pending_gone`.
    WaitForPrefetch,
}

impl TrieCachingStorage {
    /// The chunk cache entries.
    pub closed spec fn chunk(self) -> Seq<(CryptoHash, Vec<u8>)> {
        self.chunk_cache@
    }

    pub closed spec fn mode(self) -> TrieCacheMode {
        self.cache_mode
    }

    pub closed spec fn db_reads(self) -> u64 {
        self.db_read_nodes
    }

    pub closed spec fn mem_reads(self) -> u64 {
        self.mem_read_nodes
    }

    pub closed spec fn kill_switch(self) -> bool {
        self.io_kill_switch
    }

    pub closed spec fn spec_shard_uid(self) -> ShardUId {
        self.shard_uid
    }

    pub closed spec fn spec_is_view(self) -> bool {
        self.is_view
    }

    pub open spec fn wf(self) -> bool {
        crate::assoc_map::distinct_keys(self.chunk())
    }

    /// Everything but the chunk cache and the counters is unchanged.
    pub open spec fn same_config(self, other: TrieCachingStorage) -> bool {
        &&& self.spec_shard_uid() == other.spec_shard_uid()
        &&& self.spec_is_view() == other.spec_is_view()
        &&& self.mode() == other.mode()
        &&& self.kill_switch() == other.kill_switch()
    }

    /// A fresh storage: empty chunk cache, zero counters, shard-level
    /// caching, workers running.
    pub fn new(shard_uid: ShardUId, is_view: bool) -> (r: TrieCachingStorage)
        ensures
            r.wf(),
            r.spec_shard_uid() == shard_uid,
            r.spec_is_view() == is_view,
            r.chunk() == Seq::<(CryptoHash, Vec<u8>)>::empty(),
            r.mode() == TrieCacheMode::CachingShard,
            r.db_reads() == 0,
            r.mem_reads() == 0,
            !r.kill_switch(),
    {
        TrieCachingStorage {
            shard_uid,
            is_view,
            chunk_cache: AssocMap::new(),
            cache_mode: TrieCacheMode::CachingShard,
            db_read_nodes: 0,
            mem_read_nodes: 0,
            io_kill_switch: false,
        }
    }

    /// The raw-store key for a hash in a shard: the shard's eight bytes,
    /// then the hash's thirty-two.
    pub fn get_key_from_shard_uid_and_hash(shard_uid: ShardUId, hash: &CryptoHash) -> (r: Vec<u8>)
        ensures
            r@ == shard_uid.bytes() + hash.bytes(),
            r@.len() == 40,
    {
        proof {
            vstd::bytes::lemma_auto_spec_u32_to_from_le_bytes();
            vstd::bytes::lemma_auto_spec_u64_to_from_le_bytes();
        }
        let mut key = vstd::bytes::u32_to_le_bytes(shard_uid.version);
        let mut part = vstd::bytes::u32_to_le_bytes(shard_uid.shard_id);
        key.append(&mut part);
        let mut part = vstd::bytes::u64_to_le_bytes(hash.w0);
        key.append(&mut part);
        let mut part = vstd::bytes::u64_to_le_bytes(hash.w1);
        key.append(&mut part);
        let mut part = vstd::bytes::u64_to_le_bytes(hash.w2);
        key.append(&mut part);
        let mut part = vstd::bytes::u64_to_le_bytes(hash.w3);
        key.append(&mut part);
        proof {
            assert(key@ =~= shard_uid.bytes() + hash.bytes());
        }
        key
    }

    /// Splits a raw-store key back into its shard and hash; anything but
    /// forty bytes is refused.
    pub fn get_shard_uid_and_hash_from_key(key: &[u8]) -> (r: Result<
        (ShardUId, CryptoHash),
        KeyDecodeError,
    >)
        ensures
            key@.len() != 40 ==> r is Err,
            key@.len() == 40 ==> (r matches Ok(p) && p.0.bytes() + p.1.bytes() == key@),
    {
        if key.len() != 40 {
            return Err(KeyDecodeError);
        }
        proof {
            vstd::bytes::lemma_auto_spec_u32_to_from_le_bytes();
            vstd::bytes::lemma_auto_spec_u64_to_from_le_bytes();
        }
        let version = vstd::bytes::u32_from_le_bytes(vstd::slice::slice_subrange(key, 0, 4));
        let shard_id = vstd::bytes::u32_from_le_bytes(vstd::slice::slice_subrange(key, 4, 8));
        let w0 = vstd::bytes::u64_from_le_bytes(vstd::slice::slice_subrange(key, 8, 16));
        let w1 = vstd::bytes::u64_from_le_bytes(vstd::slice::slice_subrange(key, 16, 24));
        let w2 = vstd::bytes::u64_from_le_bytes(vstd::slice::slice_subrange(key, 24, 32));
        let w3 = vstd::bytes::u64_from_le_bytes(vstd::slice::slice_subrange(key, 32, 40));
        let id = ShardUId { version, shard_id };
        let hash = CryptoHash { w0, w1, w2, w3 };
        proof {
            assert(id.bytes() + hash.bytes() =~= key@);
        }
        Ok((id, hash))
    }

    /// The raw-store key layout is injective: two equal keys name the same
    /// shard and the same hash, so decoding a well-formed key recovers
    /// exactly what was encoded.
    pub proof fn lemma_key_encoding_injective(
        a: ShardUId,
        x: CryptoHash,
        b: ShardUId,
        y: CryptoHash,
    )
        requires
            a.bytes() + x.bytes() == b.bytes() + y.bytes(),
        ensures
            a == b,
            x == y,
    {
        vstd::bytes::lemma_auto_spec_u32_to_from_le_bytes();
        vstd::bytes::lemma_auto_spec_u64_to_from_le_bytes();
        let ka = a.bytes() + x.bytes();
        let kb = b.bytes() + y.bytes();
        assert(vstd::bytes::spec_u32_to_le_bytes(a.version) =~= ka.subrange(0, 4));
        assert(vstd::bytes::spec_u32_to_le_bytes(b.version) =~= kb.subrange(0, 4));
        assert(vstd::bytes::spec_u32_to_le_bytes(a.shard_id) =~= ka.subrange(4, 8));
        assert(vstd::bytes::spec_u32_to_le_bytes(b.shard_id) =~= kb.subrange(4, 8));
        assert(vstd::bytes::spec_u64_to_le_bytes(x.w0) =~= ka.subrange(8, 16));
        assert(vstd::bytes::spec_u64_to_le_bytes(y.w0) =~= kb.subrange(8, 16));
        assert(vstd::bytes::spec_u64_to_le_bytes(x.w1) =~= ka.subrange(16, 24));
        assert(vstd::bytes::spec_u64_to_le_bytes(y.w1) =~= kb.subrange(16, 24));
        assert(vstd::bytes::spec_u64_to_le_bytes(x.w2) =~= ka.subrange(24, 32));
        assert(vstd::bytes::spec_u64_to_le_bytes(y.w2) =~= kb.subrange(24, 32));
        assert(vstd::bytes::spec_u64_to_le_bytes(x.w3) =~= ka.subrange(32, 40));
        assert(vstd::bytes::spec_u64_to_le_bytes(y.w3) =~= kb.subrange(32, 40));
    }

    fn inc_db_read_nodes(&mut self)
        requires
            old(self).db_read_nodes < u64::MAX,
        ensures
            final(self).db_reads() == old(self).db_reads() + 1,
            final(self).mem_reads() == old(self).mem_reads(),
            final(self).chunk() == old(self).chunk(),
            final(self).same_config(*old(self)),
    {
        self.db_read_nodes = self.db_read_nodes + 1;
    }

    fn inc_mem_read_nodes(&mut self)
        requires
            old(self).mem_read_nodes < u64::MAX,
        ensures
            final(self).mem_reads() == old(self).mem_reads() + 1,
            final(self).db_reads() == old(self).db_reads(),
            final(self).chunk() == old(self).chunk(),
            final(self).same_config(*old(self)),
    {
        self.mem_read_nodes = self.mem_read_nodes + 1;
    }

    /// Sets the cache mode: whether completed reads also populate the chunk
    /// cache.
    pub fn set_mode(&mut self, state: TrieCacheMode)
        ensures
            final(self).mode() == state,
            final(self).chunk() == old(self).chunk(),
            final(self).db_reads() == old(self).db_reads(),
            final(self).mem_reads() == old(self).mem_reads(),
            final(self).kill_switch() == old(self).kill_switch(),
            final(self).spec_shard_uid() == old(self).spec_shard_uid(),
            final(self).wf() <== old(self).wf(),
    {
        self.cache_mode = state;
    }

    /// A worker read path sharing this storage's shard and staging state.
    pub fn prefetcher_storage(&self) -> (r: TriePrefetchingStorage)
        ensures
            r.shard_uid == self.spec_shard_uid(),
    {
        TriePrefetchingStorage { shard_uid: self.shard_uid }
    }

    /// Whether workers have been told to stop.
    pub fn io_kill_switch(&self) -> (r: bool)
        ensures
            r == self.kill_switch(),
    {
        self.io_kill_switch
    }

    /// Tells the workers to stop at their next iteration. The staging area
    /// is deliberately not cleared: in-flight workers still expect their
    /// slots.
    pub fn stop_prefetcher(&mut self)
        ensures
            final(self).kill_switch(),
            final(self).chunk() == old(self).chunk(),
            final(self).db_reads() == old(self).db_reads(),
            final(self).mem_reads() == old(self).mem_reads(),
            final(self).mode() == old(self).mode(),
            final(self).spec_shard_uid() == old(self).spec_shard_uid(),
            final(self).wf() <== old(self).wf(),
    {
        self.io_kill_switch = true;
    }

    /// The common tail of every completed non-chunk read: put the value in
    /// the shard cache if it is small enough, release the staging slot only
    /// after that, charge one db read, and in chunk mode remember the value
    /// in the chunk cache.
    fn finish_retrieve(
        &mut self,
        shard_cache: &mut TrieCache,
        prefetching: &mut PrefetchStagingArea,
        hash: &CryptoHash,
        value: Vec<u8>,
    ) -> (r: Vec<u8>)
        requires
            old(self).wf(),
            old(shard_cache).wf(),
            old(prefetching).wf(),
            old(self).db_reads() < u64::MAX,
        ensures
            r == value,
            final(self).wf(),
            final(self).same_config(*old(self)),
            final(self).db_reads() == old(self).db_reads() + 1,
            final(self).mem_reads() == old(self).mem_reads(),
            final(shard_cache).wf(),
            value@.len() < TRIE_LIMIT_CACHED_VALUE_SIZE ==> final(shard_cache)@ == spec_put(
                old(shard_cache)@,
                *hash,
                value@,
            ),
            value@.len() >= TRIE_LIMIT_CACHED_VALUE_SIZE ==> final(shard_cache)@ == old(
                shard_cache,
            )@,
            final(prefetching)@ == spec_release(old(prefetching)@, *hash),
            (!has_key(old(prefetching)@.slots, *hash) || !(value_of(old(prefetching)@.slots, *hash)
                is PendingPrefetch)) ==> final(prefetching).wf(),
            old(self).mode() == TrieCacheMode::CachingChunk ==> (exists|u: Vec<u8>|
                u@ == value@ && final(self).chunk() == assoc_insert(old(self).chunk(), *hash, u)),
            old(self).mode() == TrieCacheMode::CachingChunk ==> has_key(final(self).chunk(), *hash)
                && value_of(final(self).chunk(), *hash)@ == value@,
            old(self).mode() != TrieCacheMode::CachingChunk ==> final(self).chunk() == old(
                self,
            ).chunk(),
            chunk_keys_retained(old(self).chunk(), final(self).chunk()),
    {
        if value.len() < TRIE_LIMIT_CACHED_VALUE_SIZE {
            shard_cache.put(*hash, clone_bytes(&value));
        }
        // Only release after the insertion into the shard cache, so a worker
        // missing there cannot re-reserve the slot before the value is
        // visible.
        prefetching.release(hash);
        self.inc_db_read_nodes();
        match self.cache_mode {
            TrieCacheMode::CachingChunk => {
                let copy = clone_bytes(&value);
                proof {
                    lemma_assoc_insert(self.chunk(), *hash, copy);
                }
                self.chunk_cache.insert(*hash, copy);
            },
            TrieCacheMode::CachingShard => {},
        }
        value
    }

    /// One step of the main-thread read for `hash`.
    ///
    /// A chunk-cache hit is complete at once and charges a memory read. A
    /// shard-cache hit completes with a db read charged. Otherwise, while
    /// still holding the shard cache, a `PendingFetch` slot is reserved:
    /// the caller is sent to the raw store on `SlotReserved` and
    /// `MemoryLimitReached`, told to wait on `Pending`, and a value already
    /// staged completes the read here.
    ///
    /// The chunk-mode counting law across calls follows from these clauses:
    /// a read completed in `CachingChunk` mode puts the hash into the chunk
    /// cache, every step retains chunk keys (`chunk_keys_retained`), and a
    /// read of a chunk-cached hash charges one memory read and no db read —
    /// so each hash costs at most one db read while chunk mode holds.
    pub fn retrieve_raw_bytes(
        &mut self,
        shard_cache: &mut TrieCache,
        prefetching: &mut PrefetchStagingArea,
        hash: &CryptoHash,
    ) -> (r: MainLookup)
        requires
            old(self).wf(),
            old(shard_cache).wf(),
            old(prefetching).wf(),
            old(self).db_reads() < u64::MAX,
            old(self).mem_reads() < u64::MAX,
        ensures
            final(self).wf(),
            final(shard_cache).wf(),
            final(self).same_config(*old(self)),
            chunk_keys_retained(old(self).chunk(), final(self).chunk()),
            // A chunk-cache hit: free, charged as a memory read, nothing
            // else moves.
            has_key(old(self).chunk(), *hash) ==> {
                &&& (r matches MainLookup::Value(v) && v@ == value_of(old(self).chunk(), *hash)@)
                &&& final(self).mem_reads() == old(self).mem_reads() + 1
                &&& final(self).db_reads() == old(self).db_reads()
                &&& final(self).chunk() == old(self).chunk()
                &&& final(shard_cache)@ == old(shard_cache)@
                &&& final(prefetching)@ == old(prefetching)@
            },
            // A shard-cache hit: the entry is promoted, one db read is
            // charged, chunk mode remembers the value.
            (!has_key(old(self).chunk(), *hash) && has_key(old(shard_cache)@.entries, *hash)) ==> {
                &&& (r matches MainLookup::Value(v) && v@ == value_of(
                    old(shard_cache)@.entries,
                    *hash,
                ))
                &&& final(shard_cache)@ == spec_get(old(shard_cache)@, *hash)
                &&& final(prefetching)@ == old(prefetching)@
                &&& final(self).db_reads() == old(self).db_reads() + 1
                &&& final(self).mem_reads() == old(self).mem_reads()
                &&& (old(self).mode() == TrieCacheMode::CachingChunk ==> exists|u: Vec<u8>|
                    u@ == value_of(old(shard_cache)@.entries, *hash) && final(self).chunk()
                        == assoc_insert(old(self).chunk(), *hash, u))
                &&& (old(self).mode() == TrieCacheMode::CachingChunk ==> has_key(
                    final(self).chunk(),
                    *hash,
                ) && value_of(final(self).chunk(), *hash)@ == value_of(
                    old(shard_cache)@.entries,
                    *hash,
                ))
                &&& (old(self).mode() != TrieCacheMode::CachingChunk ==> final(self).chunk() == old(
                    self,
                ).chunk())
            },
            // A miss in both caches: what happens follows the staging area's
            // answer to reserving a main-thread fetch.
            (!has_key(old(self).chunk(), *hash) && !has_key(old(shard_cache)@.entries, *hash)) ==> {
                let reserve = spec_get_and_set_if_empty(
                    old(prefetching)@,
                    *hash,
                    PrefetchSlot::PendingFetch,
                );
                &&& ((reserve.1 == ReserveOutcome::Reserved || reserve.1
                    == ReserveOutcome::LimitReached) ==> {
                    &&& r is NeedsDbRead
                    &&& final(shard_cache)@ == old(shard_cache)@
                    &&& final(prefetching)@ == reserve.0
                    &&& final(prefetching).wf()
                    &&& final(self).chunk() == old(self).chunk()
                    &&& final(self).db_reads() == old(self).db_reads()
                    &&& final(self).mem_reads() == old(self).mem_reads()
                })
                &&& (reserve.1 == ReserveOutcome::AlreadyPending ==> {
                    &&& r is WaitForPrefetch
                    &&& final(shard_cache)@ == old(shard_cache)@
                    &&& final(prefetching)@ == old(prefetching)@
                    &&& final(prefetching).wf()
                    &&& final(self).chunk() == old(self).chunk()
                    &&& final(self).db_reads() == old(self).db_reads()
                    &&& final(self).mem_reads() == old(self).mem_reads()
                })
                &&& (reserve.1 == ReserveOutcome::AlreadyDone ==> {
                    let staged = value_of(old(prefetching)@.slots, *hash);
                    &&& (r matches MainLookup::Value(v) && staged matches PrefetchSlot::Done(w)
                        && v@ == w@)
                    &&& (staged matches PrefetchSlot::Done(w) && {
                        &&& (w@.len() < TRIE_LIMIT_CACHED_VALUE_SIZE ==> final(shard_cache)@
                            == spec_put(old(shard_cache)@, *hash, w@))
                        &&& (w@.len() >= TRIE_LIMIT_CACHED_VALUE_SIZE ==> final(shard_cache)@
                            == old(shard_cache)@)
                        &&& final(prefetching)@ == spec_release(old(prefetching)@, *hash)
                        &&& final(prefetching).wf()
                        &&& final(self).db_reads() == old(self).db_reads() + 1
                        &&& final(self).mem_reads() == old(self).mem_reads()
                        &&& (old(self).mode() == TrieCacheMode::CachingChunk ==> exists|
                            u: Vec<u8>,
                        |
                            u@ == w@ && final(self).chunk() == assoc_insert(
                                old(self).chunk(),
                                *hash,
                                u,
                            ))
                        &&& (old(self).mode() == TrieCacheMode::CachingChunk ==> has_key(
                            final(self).chunk(),
                            *hash,
                        ) && value_of(final(self).chunk(), *hash)@ == w@)
                        &&& (old(self).mode() != TrieCacheMode::CachingChunk ==> final(self).chunk()
                            == old(self).chunk())
                    })
                })
            },
    {
        if let Some(val) = self.chunk_cache.get(hash) {
            let out = clone_bytes(val);
            self.inc_mem_read_nodes();
            return MainLookup::Value(out);
        }
        match shard_cache.get(hash) {
            Some(val) => {
                self.inc_db_read_nodes();
                match self.cache_mode {
                    TrieCacheMode::CachingChunk => {
                        let copy = clone_bytes(&val);
                        proof {
                            lemma_assoc_insert(self.chunk(), *hash, copy);
                        }
                        self.chunk_cache.insert(*hash, copy);
                    },
                    TrieCacheMode::CachingShard => {},
                }
                MainLookup::Value(val)
            },
            None => {
                // Reserve the slot while the shard cache is still held, so
                // no worker can publish and vanish between the miss and the
                // reservation.
                let prefetch_state = prefetching.get_and_set_if_empty(
                    *hash,
                    PrefetchSlot::PendingFetch,
                );
                match prefetch_state {
                    PrefetcherResult::SlotReserved | PrefetcherResult::MemoryLimitReached => {
                        MainLookup::NeedsDbRead
                    },
                    PrefetcherResult::Prefetched(value) => {
                        let out = self.finish_retrieve(shard_cache, prefetching, hash, value);
                        MainLookup::Value(out)
                    },
                    PrefetcherResult::Pending => MainLookup::WaitForPrefetch,
                }
            },
        }
    }

    /// Completes a read for which this thread was sent to the raw store:
    /// maps the store's answer, and on success publishes the value. On an
    /// error the staging slot is left as it is.
    pub fn retrieve_after_db_read(
        &mut self,
        shard_cache: &mut TrieCache,
        prefetching: &mut PrefetchStagingArea,
        hash: &CryptoHash,
        db_result: RawGetResult,
    ) -> (r: Result<Vec<u8>, StorageError>)
        requires
            old(self).wf(),
            old(shard_cache).wf(),
            old(prefetching).wf(),
            old(self).db_reads() < u64::MAX,
        ensures
            final(self).wf(),
            final(shard_cache).wf(),
            final(self).same_config(*old(self)),
            final(self).mem_reads() == old(self).mem_reads(),
            chunk_keys_retained(old(self).chunk(), final(self).chunk()),
            db_result matches RawGetResult::Found(v) ==> {
                &&& (r matches Ok(w) && w@ == v@)
                &&& (v@.len() < TRIE_LIMIT_CACHED_VALUE_SIZE ==> final(shard_cache)@ == spec_put(
                    old(shard_cache)@,
                    *hash,
                    v@,
                ))
                &&& (v@.len() >= TRIE_LIMIT_CACHED_VALUE_SIZE ==> final(shard_cache)@ == old(
                    shard_cache,
                )@)
                &&& final(prefetching)@ == spec_release(old(prefetching)@, *hash)
                &&& ((!has_key(old(prefetching)@.slots, *hash) || !(value_of(
                    old(prefetching)@.slots,
                    *hash,
                ) is PendingPrefetch)) ==> final(prefetching).wf())
                &&& final(self).db_reads() == old(self).db_reads() + 1
                &&& (old(self).mode() == TrieCacheMode::CachingChunk ==> exists|u: Vec<u8>|
                    u@ == v@ && final(self).chunk() == assoc_insert(old(self).chunk(), *hash, u))
                &&& (old(self).mode() == TrieCacheMode::CachingChunk ==> has_key(
                    final(self).chunk(),
                    *hash,
                ) && value_of(final(self).chunk(), *hash)@ == v@)
                &&& (old(self).mode() != TrieCacheMode::CachingChunk ==> final(self).chunk() == old(
                    self,
                ).chunk())
            },
            !(db_result is Found) ==> {
                &&& (db_result is Missing ==> (r matches Err(e)
                    && crate::storage::is_missing_node_error(e)))
                &&& (db_result is IoError ==> r == Err::<Vec<u8>, StorageError>(
                    StorageError::StorageInternalError,
                ))
                &&& final(self).chunk() == old(self).chunk()
                &&& final(self).db_reads() == old(self).db_reads()
                &&& final(shard_cache)@ == old(shard_cache)@
                &&& final(prefetching)@ == old(prefetching)@
            },
    {
        match db_result_to_value(db_result) {
            Ok(val) => Ok(self.finish_retrieve(shard_cache, prefetching, hash, val)),
            Err(e) => Err(e),
        }
    }

    /// Completes a read that waited for an in-flight prefetch: the caller
    /// polled the staging area until `Ready(value)` and hands the value
    /// here to be published.
    pub fn retrieve_prefetched(
        &mut self,
        shard_cache: &mut TrieCache,
        prefetching: &mut PrefetchStagingArea,
        hash: &CryptoHash,
        value: Vec<u8>,
    ) -> (r: Vec<u8>)
        requires
            old(self).wf(),
            old(shard_cache).wf(),
            old(prefetching).wf(),
            old(self).db_reads() < u64::MAX,
        ensures
            r == value,
            final(self).wf(),
            final(shard_cache).wf(),
            final(self).same_config(*old(self)),
            final(self).mem_reads() == old(self).mem_reads(),
            final(self).db_reads() == old(self).db_reads() + 1,
            value@.len() < TRIE_LIMIT_CACHED_VALUE_SIZE ==> final(shard_cache)@ == spec_put(
                old(shard_cache)@,
                *hash,
                value@,
            ),
            value@.len() >= TRIE_LIMIT_CACHED_VALUE_SIZE ==> final(shard_cache)@ == old(
                shard_cache,
            )@,
            final(prefetching)@ == spec_release(old(prefetching)@, *hash),
            (!has_key(old(prefetching)@.slots, *hash) || !(value_of(old(prefetching)@.slots, *hash)
                is PendingPrefetch)) ==> final(prefetching).wf(),
            old(self).mode() == TrieCacheMode::CachingChunk ==> (exists|u: Vec<u8>|
                u@ == value@ && final(self).chunk() == assoc_insert(old(self).chunk(), *hash, u)),
            old(self).mode() == TrieCacheMode::CachingChunk ==> has_key(final(self).chunk(), *hash)
                && value_of(final(self).chunk(), *hash)@ == value@,
            old(self).mode() != TrieCacheMode::CachingChunk ==> final(self).chunk() == old(
                self,
            ).chunk(),
            chunk_keys_retained(old(self).chunk(), final(self).chunk()),
    {
        self.finish_retrieve(shard_cache, prefetching, hash, value)
    }
}

impl TrieStorage for TrieCachingStorage {
    open spec fn nodes_count_tracked(&self) -> bool {
        true
    }

    open spec fn spec_nodes_count(&self) -> TrieNodesCount {
        TrieNodesCount { db_reads: self.db_reads(), mem_reads: self.mem_reads() }
    }

    fn get_trie_nodes_count(&self) -> (r: TrieNodesCount) {
        TrieNodesCount { db_reads: self.db_read_nodes, mem_reads: self.mem_read_nodes }
    }

    fn as_caching_storage(&self) -> Option<&TrieCachingStorage> {
        Some(self)
    }
}

impl TriePrefetchingStorage {
    /// One step of a worker's read for `hash`.
    ///
    /// A shard-cache hit answers at once. Otherwise a `PendingPrefetch`
    /// slot is reserved while the shard cache is still held: the worker is
    /// sent to the raw store on `SlotReserved`, told to wait on `Pending`,
    /// served directly from a staged value, and gives up when the staging
    /// budget is exhausted.
    pub fn retrieve_raw_bytes(
        &self,
        shard_cache: &mut TrieCache,
        prefetching: &mut PrefetchStagingArea,
        hash: &CryptoHash,
    ) -> (r: Result<WorkerLookup, StorageError>)
        requires
            old(shard_cache).wf(),
            old(prefetching).wf(),
        ensures
            final(shard_cache).wf(),
            final(prefetching).wf(),
            has_key(old(shard_cache)@.entries, *hash) ==> {
                &&& (r matches Ok(s) && s matches WorkerLookup::Value(v) && v@ == value_of(
                    old(shard_cache)@.entries,
                    *hash,
                ))
                &&& final(shard_cache)@ == spec_get(old(shard_cache)@, *hash)
                &&& final(prefetching)@ == old(prefetching)@
            },
            !has_key(old(shard_cache)@.entries, *hash) ==> {
                let reserve = spec_get_and_set_if_empty(
                    old(prefetching)@,
                    *hash,
                    PrefetchSlot::PendingPrefetch,
                );
                &&& final(shard_cache)@ == old(shard_cache)@
                &&& final(prefetching)@ == reserve.0
                &&& (reserve.1 == ReserveOutcome::Reserved ==> (r matches Ok(s) && s
                    is NeedsDbRead))
                &&& (reserve.1 == ReserveOutcome::AlreadyPending ==> (r matches Ok(s) && s
                    is WaitForPrefetch))
                &&& (reserve.1 == ReserveOutcome::AlreadyDone ==> (r matches Ok(s) && s matches
                    WorkerLookup::Value(v) && value_of(old(prefetching)@.slots, *hash) matches
                    PrefetchSlot::Done(w) && v@ == w@))
                &&& (reserve.1 == ReserveOutcome::LimitReached ==> (r matches Err(e)
                    && is_prefetcher_failed_error(e)))
            },
    {
        match shard_cache.get(hash) {
            Some(val) => Ok(WorkerLookup::Value(val)),
            None => {
                // Reserve while the shard cache is still held, so the main
                // thread cannot publish and release between the miss and the
                // reservation.
                let prefetch_state = prefetching.get_and_set_if_empty(
                    *hash,
                    PrefetchSlot::PendingPrefetch,
                );
                match prefetch_state {
                    PrefetcherResult::SlotReserved => Ok(WorkerLookup::NeedsDbRead),
                    PrefetcherResult::Prefetched(value) => Ok(WorkerLookup::Value(value)),
                    PrefetcherResult::Pending => Ok(WorkerLookup::WaitForPrefetch),
                    PrefetcherResult::MemoryLimitReached => Err(prefetcher_failed_error()),
                }
            },
        }
    }

    /// Completes a worker read: the store's answer for a reserved slot is
    /// parked in the staging area for the main thread. On an error the slot
    /// is left as it is.
    pub fn retrieve_after_db_read(
        &self,
        prefetching: &mut PrefetchStagingArea,
        hash: &CryptoHash,
        db_result: RawGetResult,
    ) -> (r: Result<Vec<u8>, StorageError>)
        requires
            old(prefetching).wf(),
            db_result matches RawGetResult::Found(v) ==> {
                &&& has_key(old(prefetching)@.slots, *hash)
                &&& value_of(old(prefetching)@.slots, *hash) is PendingPrefetch
                &&& old(prefetching)@.size_bytes - crate::prefetch::PREFETCH_RESERVED_BYTES_PER_SLOT
                    + v@.len() <= usize::MAX
            },
        ensures
            final(prefetching).wf(),
            db_result matches RawGetResult::Found(v) ==> {
                &&& (r matches Ok(w) && w@ == v@)
                &&& (exists|u: Vec<u8>|
                    u@ == v@ && final(prefetching)@ == crate::prefetch::spec_insert_fetched(
                        old(prefetching)@,
                        *hash,
                        u,
                    ))
            },
            db_result is Missing ==> (r matches Err(e) && crate::storage::is_missing_node_error(e))
                && final(prefetching)@ == old(prefetching)@,
            db_result is IoError ==> r == Err::<Vec<u8>, StorageError>(
                StorageError::StorageInternalError,
            ) && final(prefetching)@ == old(prefetching)@,
    {
        match db_result_to_value(db_result) {
            Ok(val) => {
                let copy = clone_bytes(&val);
                prefetching.insert_fetched(*hash, copy);
                Ok(val)
            },
            Err(e) => Err(e),
        }
    }

    /// The last resort of a worker whose awaited slot disappeared: the main
    /// thread has already published the value, so look once more in the
    /// shard cache; if eviction beat us to it, this prefetch is abandoned.
    pub fn retrieve_after_pending_gone(&self, shard_cache: &mut TrieCache, hash: &CryptoHash) -> (r:
        Result<Vec<u8>, StorageError>)
        requires
            old(shard_cache).wf(),
        ensures
            final(shard_cache).wf(),
            has_key(old(shard_cache)@.entries, *hash) ==> {
                &&& (r matches Ok(v) && v@ == value_of(old(shard_cache)@.entries, *hash))
                &&& final(shard_cache)@ == spec_get(old(shard_cache)@, *hash)
            },
            !has_key(old(shard_cache)@.entries, *hash) ==> {
                &&& (r matches Err(e) && is_prefetcher_failed_error(e))
                &&& final(shard_cache)@ == old(shard_cache)@
            },
    {
        match shard_cache.get(hash) {
            Some(val) => Ok(val),
            None => Err(prefetcher_failed_error()),
        }
    }
}

} // verus!
