use trie_storage::assoc_map::AssocMap;
use trie_storage::caching::{
    IoThreadAction, IoThreadCmd, MainLookup, TrieCachingStorage, WorkerLookup,
};
use trie_storage::prefetch::{
    PrefetchSlot, PrefetchStagingArea, PrefetcherResult, StagingLookup,
    MAX_PREFETCH_STAGING_MEMORY, PREFETCH_RESERVED_BYTES_PER_SLOT,
};
use trie_storage::primitives::{
    CryptoHash, RawGetResult, ShardUId, StorageError, TrieCacheMode,
};
use trie_storage::refcount::decode_value_with_rc;
use trie_storage::storage::{RecordedLookup, TrieMemoryPartialStorage, TrieRecordingStorage, TrieStorage};
use trie_storage::trie_cache::TrieCache;

fn h(n: u64) -> CryptoHash {
    CryptoHash::new(n, 0, 0, 0)
}

fn uid() -> ShardUId {
    ShardUId { version: 1, shard_id: 3 }
}

// Scenario: a worker reserves the slot, the main thread arrives and waits,
// the worker publishes, the main thread consumes. Exactly one raw read
// happens; the value ends in the shard cache; the staging area drains.
#[test]
fn test_prefetch_cooperation() {
    let mut shard_cache = TrieCache::with_capacities(100, 0, false);
    let mut staging = PrefetchStagingArea::new();
    let mut storage = TrieCachingStorage::new(uid(), false);
    let worker = storage.prefetcher_storage();
    let key = h(1);
    let mut raw_reads: u32 = 0;

    // The worker misses the shard cache and reserves the slot.
    match worker.retrieve_raw_bytes(&mut shard_cache, &mut staging, &key) {
        Ok(WorkerLookup::NeedsDbRead) => raw_reads += 1,
        _ => panic!("the worker should be sent to the store"),
    }
    // The main thread arrives while the fetch is in flight.
    match storage.retrieve_raw_bytes(&mut shard_cache, &mut staging, &key) {
        MainLookup::WaitForPrefetch => {}
        _ => panic!("the main thread should wait, not read"),
    }
    // The worker hands the store's answer to the staging area.
    let worker_value = worker
        .retrieve_after_db_read(&mut staging, &key, RawGetResult::Found(vec![7, 7]))
        .unwrap();
    assert_eq!(worker_value, vec![7, 7]);
    // The main thread polls, takes the value, publishes and releases.
    match staging.poll_fetched(&key) {
        StagingLookup::Ready(value) => {
            let out = storage.retrieve_prefetched(&mut shard_cache, &mut staging, &key, value);
            assert_eq!(out, vec![7, 7]);
        }
        _ => panic!("the staged value should be ready"),
    }
    assert_eq!(raw_reads, 1);
    assert_eq!(shard_cache.get(&key), Some(vec![7, 7]));
    assert_eq!(staging.slot_count(), 0);
    assert_eq!(staging.size_bytes(), 0);
    assert_eq!(storage.get_trie_nodes_count().db_reads, 1);
}

// In chunk-caching mode, a hash read twice charges the store once: the
// second read is a chunk-cache hit counted as a memory read.
#[test]
fn test_chunk_mode_counts_once() {
    let mut shard_cache = TrieCache::with_capacities(100, 0, false);
    let mut staging = PrefetchStagingArea::new();
    let mut storage = TrieCachingStorage::new(uid(), false);
    storage.set_mode(TrieCacheMode::CachingChunk);
    let key = h(5);

    match storage.retrieve_raw_bytes(&mut shard_cache, &mut staging, &key) {
        MainLookup::NeedsDbRead => {}
        _ => panic!("a cold read goes to the store"),
    }
    let value = storage
        .retrieve_after_db_read(&mut shard_cache, &mut staging, &key, RawGetResult::Found(vec![5]))
        .unwrap();
    assert_eq!(value, vec![5]);
    // The reserved slot was released once the value reached the shard cache.
    assert_eq!(staging.slot_count(), 0);
    assert_eq!(staging.size_bytes(), 0);
    assert_eq!(shard_cache.get(&key), Some(vec![5]));
    let counts = storage.get_trie_nodes_count();
    assert_eq!(counts.db_reads, 1);
    assert_eq!(counts.mem_reads, 0);

    for _ in 0..3 {
        match storage.retrieve_raw_bytes(&mut shard_cache, &mut staging, &key) {
            MainLookup::Value(v) => assert_eq!(v, vec![5]),
            _ => panic!("a chunk hit completes at once"),
        }
    }
    let counts = storage.get_trie_nodes_count();
    assert_eq!(counts.db_reads, 1);
    assert_eq!(counts.mem_reads, 3);
}

// In shard-caching mode the chunk cache is not populated: a repeated read
// hits the shard cache and is charged as a db read each time.
#[test]
fn test_shard_mode_charges_db_reads() {
    let mut shard_cache = TrieCache::with_capacities(100, 0, false);
    let mut staging = PrefetchStagingArea::new();
    let mut storage = TrieCachingStorage::new(uid(), false);
    let key = h(6);

    match storage.retrieve_raw_bytes(&mut shard_cache, &mut staging, &key) {
        MainLookup::NeedsDbRead => {}
        _ => panic!("a cold read goes to the store"),
    }
    let _ = storage
        .retrieve_after_db_read(&mut shard_cache, &mut staging, &key, RawGetResult::Found(vec![6]))
        .unwrap();
    match storage.retrieve_raw_bytes(&mut shard_cache, &mut staging, &key) {
        MainLookup::Value(v) => assert_eq!(v, vec![6]),
        _ => panic!("a shard hit completes at once"),
    }
    let counts = storage.get_trie_nodes_count();
    assert_eq!(counts.db_reads, 2);
    assert_eq!(counts.mem_reads, 0);
}

// Memory pressure: with the staging budget exhausted, the main thread falls
// through to a synchronous read and the worker reports a failed prefetch.
#[test]
fn test_memory_pressure() {
    let mut shard_cache = TrieCache::with_capacities(100, 0, false);
    let mut staging = PrefetchStagingArea::new();
    let mut storage = TrieCachingStorage::new(uid(), false);
    let worker = storage.prefetcher_storage();

    let full: usize = MAX_PREFETCH_STAGING_MEMORY / PREFETCH_RESERVED_BYTES_PER_SLOT;
    for i in 0..full {
        match staging.get_and_set_if_empty(h(1000 + i as u64), PrefetchSlot::PendingPrefetch) {
            PrefetcherResult::SlotReserved => {}
            _ => panic!("the budget still has room"),
        }
    }
    let key = h(1);
    match storage.retrieve_raw_bytes(&mut shard_cache, &mut staging, &key) {
        MainLookup::NeedsDbRead => {}
        _ => panic!("the main thread reads synchronously under pressure"),
    }
    match worker.retrieve_raw_bytes(&mut shard_cache, &mut staging, &key) {
        Err(StorageError::StorageInconsistentState(msg)) => {
            assert_eq!(msg, "Prefetcher failed");
        }
        _ => panic!("the worker gives up under pressure"),
    }
}

// A worker whose awaited slot disappeared finds the value in the shard
// cache; if even that misses, the prefetch is abandoned with an error.
#[test]
fn test_worker_fallback() {
    let mut shard_cache = TrieCache::with_capacities(100, 0, false);
    let storage = TrieCachingStorage::new(uid(), false);
    let worker = storage.prefetcher_storage();
    let key = h(2);

    match worker.retrieve_after_pending_gone(&mut shard_cache, &key) {
        Err(StorageError::StorageInconsistentState(msg)) => {
            assert_eq!(msg, "Prefetcher failed");
        }
        _ => panic!("nothing published: the prefetch is abandoned"),
    }
    shard_cache.put(key, vec![2, 2]);
    assert_eq!(worker.retrieve_after_pending_gone(&mut shard_cache, &key), Ok(vec![2, 2]));
}

// The worker path's store errors: a missing key is an inconsistency, an
// input/output failure an internal error; the reserved slot is left behind.
#[test]
fn test_worker_db_errors() {
    let mut shard_cache = TrieCache::with_capacities(100, 0, false);
    let mut staging = PrefetchStagingArea::new();
    let storage = TrieCachingStorage::new(uid(), false);
    let worker = storage.prefetcher_storage();
    let key = h(3);

    match worker.retrieve_raw_bytes(&mut shard_cache, &mut staging, &key) {
        Ok(WorkerLookup::NeedsDbRead) => {}
        _ => panic!("the worker should be sent to the store"),
    }
    match worker.retrieve_after_db_read(&mut staging, &key, RawGetResult::Missing) {
        Err(StorageError::StorageInconsistentState(msg)) => {
            assert_eq!(msg, "Trie node missing");
        }
        _ => panic!("a missing key is an inconsistent state"),
    }
    match worker.retrieve_after_db_read(&mut staging, &key, RawGetResult::IoError) {
        Err(StorageError::StorageInternalError) => {}
        _ => panic!("a store failure is internal"),
    }
}

// The main path's store errors.
#[test]
fn test_main_db_errors() {
    let mut shard_cache = TrieCache::with_capacities(100, 0, false);
    let mut staging = PrefetchStagingArea::new();
    let mut storage = TrieCachingStorage::new(uid(), false);
    let key = h(4);

    match storage.retrieve_raw_bytes(&mut shard_cache, &mut staging, &key) {
        MainLookup::NeedsDbRead => {}
        _ => panic!("a cold read goes to the store"),
    }
    match storage.retrieve_after_db_read(&mut shard_cache, &mut staging, &key, RawGetResult::Missing)
    {
        Err(StorageError::StorageInconsistentState(msg)) => {
            assert_eq!(msg, "Trie node missing");
        }
        _ => panic!("a missing key is an inconsistent state"),
    }
    match storage.retrieve_after_db_read(&mut shard_cache, &mut staging, &key, RawGetResult::IoError)
    {
        Err(StorageError::StorageInternalError) => {}
        _ => panic!("a store failure is internal"),
    }
}

// A value at or above the size cap completes the read but never enters the
// shard cache.
#[test]
fn test_large_value_not_shard_cached() {
    let mut shard_cache = TrieCache::with_capacities(100, 0, false);
    let mut staging = PrefetchStagingArea::new();
    let mut storage = TrieCachingStorage::new(uid(), false);
    let key = h(7);

    match storage.retrieve_raw_bytes(&mut shard_cache, &mut staging, &key) {
        MainLookup::NeedsDbRead => {}
        _ => panic!("a cold read goes to the store"),
    }
    let big = vec![8u8; 1000];
    let value = storage
        .retrieve_after_db_read(
            &mut shard_cache,
            &mut staging,
            &key,
            RawGetResult::Found(big.clone()),
        )
        .unwrap();
    assert_eq!(value, big);
    assert_eq!(shard_cache.get(&key), None);
    assert_eq!(shard_cache.len(), 0);
}

#[test]
fn test_recording_storage() {
    let mut recording = TrieRecordingStorage::new(uid());
    let key = h(11);
    match recording.retrieve_raw_bytes(&key) {
        RecordedLookup::NeedsRawRead => {}
        _ => panic!("nothing recorded yet"),
    }
    let value = recording
        .retrieve_after_raw_read(&key, RawGetResult::Found(vec![1, 1]))
        .unwrap();
    assert_eq!(value, vec![1, 1]);
    match recording.retrieve_raw_bytes(&key) {
        RecordedLookup::Recorded(v) => assert_eq!(v, vec![1, 1]),
        _ => panic!("the read was recorded"),
    }
    match recording.retrieve_after_raw_read(&h(12), RawGetResult::Missing) {
        Err(StorageError::StorageInconsistentState(msg)) => {
            assert_eq!(msg, "Trie node missing");
        }
        _ => panic!("a missing key is an inconsistent state"),
    }
    match recording.retrieve_after_raw_read(&h(12), RawGetResult::IoError) {
        Err(StorageError::StorageInternalError) => {}
        _ => panic!("a store failure is internal"),
    }
}

#[test]
fn test_partial_storage() {
    let mut preloaded: AssocMap<Vec<u8>> = AssocMap::new();
    preloaded.insert(h(21), vec![1]);
    preloaded.insert(h(22), vec![2, 2]);
    let mut partial = TrieMemoryPartialStorage::new(preloaded);

    assert!(!partial.was_visited(&h(21)));
    assert_eq!(partial.retrieve_raw_bytes(&h(21)), Ok(vec![1]));
    assert!(partial.was_visited(&h(21)));
    assert!(!partial.was_visited(&h(22)));
    assert_eq!(partial.retrieve_raw_bytes(&h(23)), Err(StorageError::TrieNodeMissing));
    assert!(!partial.was_visited(&h(23)));
}

#[test]
fn test_key_codec_roundtrip() {
    let id = ShardUId { version: 2, shard_id: 7 };
    let hash = CryptoHash::new(0x0102030405060708, 9, 10, u64::MAX);
    let key = TrieCachingStorage::get_key_from_shard_uid_and_hash(id, &hash);
    assert_eq!(key.len(), 40);
    assert_eq!(&key[0..4], &2u32.to_le_bytes());
    assert_eq!(&key[4..8], &7u32.to_le_bytes());
    assert_eq!(&key[8..16], &0x0102030405060708u64.to_le_bytes());
    let decoded = TrieCachingStorage::get_shard_uid_and_hash_from_key(&key).unwrap();
    assert_eq!(decoded.0, id);
    assert_eq!(decoded.1, hash);
}

#[test]
fn test_key_codec_rejects_wrong_length() {
    assert!(TrieCachingStorage::get_shard_uid_and_hash_from_key(&[0u8; 39]).is_err());
    assert!(TrieCachingStorage::get_shard_uid_and_hash_from_key(&[0u8; 41]).is_err());
    assert!(TrieCachingStorage::get_shard_uid_and_hash_from_key(&[]).is_err());
}

#[test]
fn test_decode_value_with_rc() {
    let mut live = b"hi".to_vec();
    live.extend_from_slice(&1i64.to_le_bytes());
    let (value, rc) = decode_value_with_rc(&live);
    assert_eq!(value, Some(&b"hi"[..]));
    assert_eq!(rc, 1);

    let tombstone = (-3i64).to_le_bytes().to_vec();
    let (value, rc) = decode_value_with_rc(&tombstone);
    assert_eq!(value, None);
    assert_eq!(rc, -3);

    // A count of zero also indicates deletion.
    let mut zero = b"hi".to_vec();
    zero.extend_from_slice(&0i64.to_le_bytes());
    let (value, rc) = decode_value_with_rc(&zero);
    assert_eq!(value, None);
    assert_eq!(rc, 0);

    let (value, rc) = decode_value_with_rc(&[]);
    assert_eq!(value, None);
    assert_eq!(rc, 0);
}

#[test]
fn test_io_thread_step() {
    match io_step(false, Some(IoThreadCmd::PrefetchTrieNode(vec![1, 2]))) {
        IoThreadAction::Prefetch(k) => assert_eq!(k, vec![1, 2]),
        _ => panic!("a prefetch command is carried out"),
    }
    assert!(matches!(io_step(false, Some(IoThreadCmd::StopSelf)), IoThreadAction::Terminate));
    assert!(matches!(io_step(false, None), IoThreadAction::Sleep));
    assert!(matches!(io_step(true, None), IoThreadAction::Terminate));
    assert!(matches!(
        io_step(true, Some(IoThreadCmd::PrefetchTrieNode(vec![3]))),
        IoThreadAction::Terminate
    ));
}

fn io_step(kill: bool, cmd: Option<IoThreadCmd>) -> IoThreadAction {
    trie_storage::caching::io_thread_step(kill, cmd)
}

#[test]
fn test_stop_prefetcher() {
    let mut storage = TrieCachingStorage::new(uid(), true);
    assert!(!storage.io_kill_switch());
    storage.stop_prefetcher();
    assert!(storage.io_kill_switch());
    assert_eq!(storage.shard_uid, uid());
    assert!(storage.is_view);
}
