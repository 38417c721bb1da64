//! Plain domain types: hashes, shard identifiers, cache modes, node-access
//! counters, and the storage error taxonomy, together with the byte layouts
//! that connect them to the raw key-value store.

use vstd::prelude::*;

verus! {

/// Values of this size (in bytes) or above are never stored in the shard
/// cache.
pub const TRIE_LIMIT_CACHED_VALUE_SIZE: usize = 1000;

/// Default number of shard-cache entries.
pub const TRIE_DEFAULT_SHARD_CACHE_SIZE: usize = 50000;

/// Default upper bound for the total size of the values in a shard cache.
pub const DEFAULT_SHARD_CACHE_TOTAL_SIZE_LIMIT: u64 = 3_000_000_000;

/// Default capacity of the deferred-deletion queue.
pub const DEFAULT_SHARD_CACHE_DELETIONS_QUEUE_CAPACITY: usize = 100_000;

/// An opaque 32-byte content identifier, stored as four 64-bit words in
/// little-endian order. Equality is identity of the bytes.
#[derive(Clone, Copy, PartialEq, Eq, Structural, Hash, Debug)]
pub struct CryptoHash {
    pub w0: u64,
    pub w1: u64,
    pub w2: u64,
    pub w3: u64,
}

impl CryptoHash {
    pub fn new(w0: u64, w1: u64, w2: u64, w3: u64) -> (r: CryptoHash)
        ensures
            r == (CryptoHash { w0, w1, w2, w3 }),
    {
        CryptoHash { w0, w1, w2, w3 }
    }

    /// The 32 bytes of the hash, words first to last, each little-endian.
    pub open spec fn bytes(self) -> Seq<u8> {
        vstd::bytes::spec_u64_to_le_bytes(self.w0) + vstd::bytes::spec_u64_to_le_bytes(self.w1)
            + vstd::bytes::spec_u64_to_le_bytes(self.w2) + vstd::bytes::spec_u64_to_le_bytes(
            self.w3,
        )
    }
}

/// A shard identifier: a version and a shard ordinal, eight bytes in all.
#[derive(Clone, Copy, PartialEq, Eq, Structural, Hash, Debug)]
pub struct ShardUId {
    pub version: u32,
    pub shard_id: u32,
}

impl ShardUId {
    /// The 8-byte layout: version then shard ordinal, each little-endian.
    pub open spec fn bytes(self) -> Seq<u8> {
        vstd::bytes::spec_u32_to_le_bytes(self.version) + vstd::bytes::spec_u32_to_le_bytes(
            self.shard_id,
        )
    }
}

/// Which tier a main-thread read path charges and populates.
#[derive(Clone, Copy, PartialEq, Eq, Structural, Debug)]
pub enum TrieCacheMode {
    /// Put the value only to the shard cache.
    CachingShard,
    /// Put the value to the chunk cache as well.
    CachingChunk,
}

/// Monotonic counters of node accesses for one caching storage.
#[derive(Clone, Copy, PartialEq, Eq, Structural, Debug)]
pub struct TrieNodesCount {
    /// Reads served by the shard cache or the raw store.
    pub db_reads: u64,
    /// Reads served by the chunk cache.
    pub mem_reads: u64,
}

/// Errors surfaced by the storage read paths.
#[derive(PartialEq, Eq, Debug)]
pub enum StorageError {
    /// The raw key-value store failed.
    StorageInternalError,
    /// A key that must exist is absent, or a prefetch could not complete.
    StorageInconsistentState(String),
    /// Partial storage only: an expected hash is not in the preloaded set.
    TrieNodeMissing,
}

/// The result of one raw key-value store read, as the surrounding
/// (unverified) input/output layer hands it to the read paths.
#[derive(PartialEq, Eq, Debug)]
pub enum RawGetResult {
    /// The key was present with these bytes.
    Found(Vec<u8>),
    /// The store answered, but the key was absent.
    Missing,
    /// The store failed.
    IoError,
}

} // verus!
