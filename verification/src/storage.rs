//! The storage read contract and its proof-building variants.
//!
//! `TrieStorage` is the capability introspection the trie traversal layer
//! uses to tell the storages apart. `TrieRecordingStorage` remembers every
//! value it serves, for building proofs; `TrieMemoryPartialStorage` serves
//! only from a preloaded set and tracks what was visited, for checking them.
//!
//! The raw key-value store is input/output: a read path that needs it
//! answers `NeedsRawRead`, the surrounding layer performs the read, and the
//! path takes the result back as a [`RawGetResult`].

use crate::assoc_map::{assoc_insert, has_key, lemma_assoc_insert, value_of, AssocMap};
use crate::prefetch::clone_bytes;
use crate::primitives::{CryptoHash, RawGetResult, ShardUId, StorageError, TrieNodesCount};
use vstd::prelude::*;
use vstd::string::StringExecFns;

verus! {

/// The error for a key that must exist but is absent on disk.
pub open spec fn is_missing_node_error(e: StorageError) -> bool {
    &&& e matches StorageError::StorageInconsistentState(m)
    &&& m@ == "Trie node missing"@
}

pub fn missing_node_error() -> (r: StorageError)
    ensures
        is_missing_node_error(r),
{
    StorageError::StorageInconsistentState(String::from_str("Trie node missing"))
}

/// The error for a prefetch that could not complete.
pub open spec fn is_prefetcher_failed_error(e: StorageError) -> bool {
    &&& e matches StorageError::StorageInconsistentState(m)
    &&& m@ == "Prefetcher failed"@
}

pub fn prefetcher_failed_error() -> (r: StorageError)
    ensures
        is_prefetcher_failed_error(r),
{
    StorageError::StorageInconsistentState(String::from_str("Prefetcher failed"))
}

/// Turns one raw-store answer into the read path's result: a missing key is
/// an inconsistency, a store failure an internal error.
pub fn db_result_to_value(db_result: RawGetResult) -> (r: Result<Vec<u8>, StorageError>)
    ensures
        db_result matches RawGetResult::Found(v) ==> r == Ok::<Vec<u8>, StorageError>(v),
        db_result is Missing ==> (r matches Err(e) && is_missing_node_error(e)),
        db_result is IoError ==> r == Err::<Vec<u8>, StorageError>(
            StorageError::StorageInternalError,
        ),
{
    match db_result {
        RawGetResult::Found(v) => Ok(v),
        RawGetResult::Missing => Err(missing_node_error()),
        RawGetResult::IoError => Err(StorageError::StorageInternalError),
    }
}

/// The read contract the trie traversal layer sees: node-access counters
/// where a storage tracks them, and capability introspection — each storage
/// answers for at most one of the three variants with itself.
pub trait TrieStorage {
    /// Whether this storage tracks node-access counters.
    spec fn nodes_count_tracked(&self) -> bool;

    /// The counters, where they are tracked.
    spec fn spec_nodes_count(&self) -> TrieNodesCount;

    fn get_trie_nodes_count(&self) -> (r: TrieNodesCount)
        requires
            self.nodes_count_tracked(),
        ensures
            r == self.spec_nodes_count(),
    ;

    fn as_caching_storage(&self) -> Option<&crate::caching::TrieCachingStorage> {
        None
    }

    fn as_recording_storage(&self) -> Option<&TrieRecordingStorage> {
        None
    }

    fn as_partial_storage(&self) -> Option<&TrieMemoryPartialStorage> {
        None
    }
}

/// What a lookup in a recording storage answers.
#[derive(Debug)]
pub enum RecordedLookup {
    /// Already recorded: served locally.
    Recorded(Vec<u8>),
    /// Not recorded yet: the caller must read the raw store and hand the
    /// result to `retrieve_after_raw_read`.
    NeedsRawRead,
}

/// Records every value read through it. Used for obtaining state parts.
pub struct TrieRecordingStorage {
    pub shard_uid: ShardUId,
    recorded: AssocMap<Vec<u8>>,
}

impl TrieRecordingStorage {
    /// The recorded entries.
    pub closed spec fn recorded(self) -> Seq<(CryptoHash, Vec<u8>)> {
        self.recorded@
    }

    pub closed spec fn spec_shard_uid(self) -> ShardUId {
        self.shard_uid
    }

    pub open spec fn wf(self) -> bool {
        crate::assoc_map::distinct_keys(self.recorded())
    }

    pub fn new(shard_uid: ShardUId) -> (r: TrieRecordingStorage)
        ensures
            r.wf(),
            r.recorded() == Seq::<(CryptoHash, Vec<u8>)>::empty(),
            r.spec_shard_uid() == shard_uid,
    {
        TrieRecordingStorage { shard_uid, recorded: AssocMap::new() }
    }

    /// Serves a recorded value, or asks for a raw read.
    pub fn retrieve_raw_bytes(&self, hash: &CryptoHash) -> (r: RecordedLookup)
        ensures
            has_key(self.recorded(), *hash) ==> (r matches RecordedLookup::Recorded(v) && v@
                == value_of(self.recorded(), *hash)@),
            !has_key(self.recorded(), *hash) ==> r is NeedsRawRead,
    {
        match self.recorded.get(hash) {
            Some(val) => RecordedLookup::Recorded(clone_bytes(val)),
            None => RecordedLookup::NeedsRawRead,
        }
    }

    /// Takes the raw store's answer for `hash`: a found value is recorded
    /// and returned; a missing key or a store failure is the corresponding
    /// error, and nothing is recorded.
    pub fn retrieve_after_raw_read(&mut self, hash: &CryptoHash, db_result: RawGetResult) -> (r:
        Result<Vec<u8>, StorageError>)
        requires
            old(self).wf(),
        ensures
            final(self).wf(),
            final(self).spec_shard_uid() == old(self).spec_shard_uid(),
            db_result matches RawGetResult::Found(v) ==> (r matches Ok(w) && w@ == v@ && (exists|
                u: Vec<u8>,
            |
                u@ == v@ && final(self).recorded() == assoc_insert(
                    old(self).recorded(),
                    *hash,
                    u,
                ))),
            db_result is Missing ==> ((r matches Err(e) && is_missing_node_error(e))
                && final(self).recorded() == old(self).recorded()),
            db_result is IoError ==> (r == Err::<Vec<u8>, StorageError>(
                StorageError::StorageInternalError,
            ) && final(self).recorded() == old(self).recorded()),
    {
        match db_result_to_value(db_result) {
            Ok(val) => {
                let ghost s0 = self.recorded();
                let copy = clone_bytes(&val);
                proof {
                    lemma_assoc_insert(self.recorded(), *hash, copy);
                }
                self.recorded.insert(*hash, copy);
                proof {
                    assert(self.recorded() == assoc_insert(s0, *hash, copy));
                }
                Ok(val)
            },
            Err(e) => Err(e),
        }
    }
}

impl TrieStorage for TrieRecordingStorage {
    open spec fn nodes_count_tracked(&self) -> bool {
        false
    }

    open spec fn spec_nodes_count(&self) -> TrieNodesCount {
        TrieNodesCount { db_reads: 0, mem_reads: 0 }
    }

    /// A recording storage does not count node accesses; no caller may ask.
    fn get_trie_nodes_count(&self) -> (r: TrieNodesCount) {
        TrieNodesCount { db_reads: 0, mem_reads: 0 }
    }

    fn as_recording_storage(&self) -> Option<&TrieRecordingStorage> {
        Some(self)
    }
}

/// Serves reads only from a preloaded partial set and tracks which hashes
/// were actually visited, for proof-minimality checks.
pub struct TrieMemoryPartialStorage {
    recorded_storage: AssocMap<Vec<u8>>,
    visited_nodes: AssocMap<bool>,
}

impl TrieMemoryPartialStorage {
    /// The preloaded entries.
    pub closed spec fn recorded_storage(self) -> Seq<(CryptoHash, Vec<u8>)> {
        self.recorded_storage@
    }

    /// The hashes visited so far.
    pub closed spec fn visited_nodes(self) -> Seq<(CryptoHash, bool)> {
        self.visited_nodes@
    }

    pub open spec fn wf(self) -> bool {
        &&& crate::assoc_map::distinct_keys(self.recorded_storage())
        &&& crate::assoc_map::distinct_keys(self.visited_nodes())
    }

    /// A partial storage over the given preloaded entries, nothing visited.
    pub fn new(recorded_storage: AssocMap<Vec<u8>>) -> (r: TrieMemoryPartialStorage)
        requires
            recorded_storage.inv(),
        ensures
            r.wf(),
            r.recorded_storage() == recorded_storage@,
            r.visited_nodes() == Seq::<(CryptoHash, bool)>::empty(),
    {
        TrieMemoryPartialStorage { recorded_storage, visited_nodes: AssocMap::new() }
    }

    /// Serves `hash` from the preloaded set, marking it visited; a hash
    /// outside the set is `TrieNodeMissing`.
    pub fn retrieve_raw_bytes(&mut self, hash: &CryptoHash) -> (r: Result<Vec<u8>, StorageError>)
        requires
            old(self).wf(),
        ensures
            final(self).wf(),
            final(self).recorded_storage() == old(self).recorded_storage(),
            has_key(old(self).recorded_storage(), *hash) ==> (r matches Ok(v) && v@ == value_of(
                old(self).recorded_storage(),
                *hash,
            )@) && final(self).visited_nodes() == assoc_insert(
                old(self).visited_nodes(),
                *hash,
                true,
            ),
            !has_key(old(self).recorded_storage(), *hash) ==> r == Err::<Vec<u8>, StorageError>(
                StorageError::TrieNodeMissing,
            ) && final(self).visited_nodes() == old(self).visited_nodes(),
    {
        let found = match self.recorded_storage.get(hash) {
            Some(val) => Some(clone_bytes(val)),
            None => None,
        };
        match found {
            Some(val) => {
                proof {
                    lemma_assoc_insert(self.visited_nodes(), *hash, true);
                }
                self.visited_nodes.insert(*hash, true);
                Ok(val)
            },
            None => Err(StorageError::TrieNodeMissing),
        }
    }

    /// Whether `hash` has been served by this storage.
    pub fn was_visited(&self, hash: &CryptoHash) -> (r: bool)
        ensures
            r == has_key(self.visited_nodes(), *hash),
    {
        self.visited_nodes.contains_key(hash)
    }
}

impl TrieStorage for TrieMemoryPartialStorage {
    open spec fn nodes_count_tracked(&self) -> bool {
        false
    }

    open spec fn spec_nodes_count(&self) -> TrieNodesCount {
        TrieNodesCount { db_reads: 0, mem_reads: 0 }
    }

    /// A partial storage does not count node accesses; no caller may ask.
    fn get_trie_nodes_count(&self) -> (r: TrieNodesCount) {
        TrieNodesCount { db_reads: 0, mem_reads: 0 }
    }

    fn as_partial_storage(&self) -> Option<&TrieMemoryPartialStorage> {
        Some(self)
    }
}

} // verus!
