//! A multi-tier trie-node caching and prefetching subsystem.
//!
//! The crate serves content-addressed trie-node byte blobs, keyed by the
//! cryptographic hash of the blob, with bounded memory use:
//!
//! * [`bounded_queue`] — a fixed-capacity FIFO, used as the deferred-deletion
//!   queue;
//! * [`trie_cache`] — the shard cache: an LRU of `hash -> bytes` with exact
//!   byte accounting, a value-size cap, and deferred deletions;
//! * [`prefetch`] — the staging area that coordinates in-flight reads
//!   between the main thread and prefetch workers under a byte budget;
//! * [`caching`] — the main-thread and worker read paths over the shared
//!   caches, with the node-access counters and the raw-store key layout;
//! * [`storage`] — the common read contract and the proof-building and
//!   proof-checking storages;
//! * [`refcount`] — the reference-count codec of raw stored values;
//! * [`assoc_map`] — the distinct-key entry list backing the maps above.
//!
//! Reads from the raw key-value store are input/output and stay outside this
//! crate: the read paths hand back a request for a raw read and take its
//! result as an argument, so every decision around the read is verified.

pub mod assoc_map;
pub mod bounded_queue;
pub mod caching;
pub mod lru_ext;
pub mod prefetch;
pub mod primitives;
pub mod refcount;
pub mod storage;
pub mod trie_cache;
