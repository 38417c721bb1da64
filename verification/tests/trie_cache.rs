use trie_storage::primitives::CryptoHash;
use trie_storage::trie_cache::{TrieCache, TrieCacheInner};

/// A content-derived key for test values: the length and the first bytes,
/// packed into the hash words. Distinct for every value these tests use.
fn hash(value: &[u8]) -> CryptoHash {
    let mut w1: u64 = 0;
    for (i, b) in value.iter().take(8).enumerate() {
        w1 |= (*b as u64) << (8 * i);
    }
    CryptoHash::new(value.len() as u64, w1, 0, 0)
}

fn put_value(cache: &mut TrieCacheInner, value: &[u8]) {
    cache.put(hash(value), value.to_vec());
}

#[test]
fn test_size_limit() {
    let mut cache = TrieCacheInner::new(100, 100, 5, 0, false);
    // Add three values. Before each put, condition on total size should not be triggered.
    put_value(&mut cache, &[1, 1]);
    assert_eq!(cache.current_total_size(), 2);
    put_value(&mut cache, &[1, 1, 1]);
    assert_eq!(cache.current_total_size(), 5);
    put_value(&mut cache, &[1]);
    assert_eq!(cache.current_total_size(), 6);

    // Add one of previous values. LRU value should be evicted.
    put_value(&mut cache, &[1, 1, 1]);
    assert_eq!(cache.current_total_size(), 4);
    assert_eq!(cache.pop_lru(), Some((hash(&[1]), vec![1])));
    assert_eq!(cache.pop_lru(), Some((hash(&[1, 1, 1]), vec![1, 1, 1])));
}

#[test]
fn test_deletions_queue() {
    let mut cache = TrieCacheInner::new(100, 2, 100, 0, false);
    // Add two values to the cache.
    put_value(&mut cache, &[1]);
    put_value(&mut cache, &[1, 1]);

    // Call pop for inserted values. Because deletions queue is not full, no elements should be deleted.
    assert_eq!(cache.pop(&hash(&[1, 1])), None);
    assert_eq!(cache.pop(&hash(&[1])), None);

    // Call pop two times for a value existing in cache. Because queue is full, both elements should be deleted.
    assert_eq!(cache.pop(&hash(&[1])), Some((hash(&[1, 1]), vec![1, 1])));
    assert_eq!(cache.pop(&hash(&[1])), Some((hash(&[1]), vec![1])));
}

#[test]
fn test_cache_capacity() {
    let mut cache = TrieCacheInner::new(2, 100, 100, 0, false);
    put_value(&mut cache, &[1]);
    put_value(&mut cache, &[2]);
    put_value(&mut cache, &[3]);

    assert!(!cache.contains(&hash(&[1])));
    assert!(cache.contains(&hash(&[2])));
    assert!(cache.contains(&hash(&[3])));
}

// The byte accounting is exact after every operation: the total equals the
// sum of the stored value lengths.
#[test]
fn test_total_size_accounting() {
    let mut cache = TrieCacheInner::new(10, 2, 1000, 0, false);
    assert_eq!(cache.current_total_size(), 0);
    put_value(&mut cache, &[1, 2, 3]);
    assert_eq!(cache.current_total_size(), 3);
    put_value(&mut cache, &[4, 5]);
    assert_eq!(cache.current_total_size(), 5);
    // A get never changes the sizes.
    assert_eq!(cache.get(&hash(&[1, 2, 3])), Some(vec![1, 2, 3]));
    assert_eq!(cache.current_total_size(), 5);
    // Queue two deferred deletions, then spill: the accounting follows the
    // entries that actually leave.
    assert_eq!(cache.pop(&hash(&[1, 2, 3])), None);
    assert_eq!(cache.pop(&hash(&[4, 5])), None);
    assert_eq!(cache.current_total_size(), 5);
    assert_eq!(cache.pop(&hash(&[4, 5])), Some((hash(&[1, 2, 3]), vec![1, 2, 3])));
    assert_eq!(cache.current_total_size(), 2);
    assert_eq!(cache.len(), 1);
    cache.clear();
    assert_eq!(cache.current_total_size(), 0);
    assert_eq!(cache.len(), 0);
}

// After any put: the entry count stays within the capacity, and the byte
// total exceeds the budget by less than the value just inserted.
#[test]
fn test_put_bounds() {
    let mut cache = TrieCacheInner::new(3, 3, 4, 0, false);
    for v in [
        vec![1u8],
        vec![2, 2],
        vec![3, 3, 3],
        vec![4, 4, 4, 4],
        vec![5],
        vec![6, 6, 6],
    ] {
        cache.put(hash(&v), v.clone());
        assert!(cache.len() <= 3);
        assert!(cache.current_total_size() <= 4 + v.len() as u64);
    }
}

// The LRU eviction respects recency refreshed by get.
#[test]
fn test_get_refreshes_recency() {
    let mut cache = TrieCacheInner::new(2, 100, 100, 0, false);
    put_value(&mut cache, &[1]);
    put_value(&mut cache, &[2]);
    // Touch [1], making [2] the least recently used.
    assert_eq!(cache.get(&hash(&[1])), Some(vec![1]));
    put_value(&mut cache, &[3]);
    assert!(cache.contains(&hash(&[1])));
    assert!(!cache.contains(&hash(&[2])));
    assert!(cache.contains(&hash(&[3])));
}

/// `payload` with a little-endian reference count appended, as the raw store
/// encodes its values.
fn rc_bytes(payload: &[u8], rc: i64) -> Vec<u8> {
    let mut out = payload.to_vec();
    out.extend_from_slice(&rc.to_le_bytes());
    out
}

// A batched update is the sequential composition of put and pop.
#[test]
fn test_update_cache_matches_sequential() {
    let mut batched = TrieCache::with_capacities(10, 0, false);
    let mut manual = TrieCache::with_capacities(10, 0, false);

    let ops = vec![
        (hash(&[1]), Some(rc_bytes(&[1], 1))),
        (hash(&[2, 2]), Some(rc_bytes(&[2, 2], 2))),
        (hash(&[1]), None),
        (hash(&[3]), Some(rc_bytes(&[], -1))),
        (hash(&[4; 4]), Some(rc_bytes(&[4; 1000], 1))),
    ];
    batched.update_cache(ops);

    manual.put(hash(&[1]), vec![1]);
    manual.put(hash(&[2, 2]), vec![2, 2]);
    manual.pop(&hash(&[1]));
    manual.pop(&hash(&[3]));
    // The oversized value changes nothing.

    assert_eq!(batched.len(), manual.len());
    assert_eq!(batched.current_total_size(), manual.current_total_size());
    assert_eq!(batched.get(&hash(&[1])), manual.get(&hash(&[1])));
    assert_eq!(batched.get(&hash(&[2, 2])), manual.get(&hash(&[2, 2])));
    assert_eq!(batched.get(&hash(&[4; 4])), None);
}

// Re-applying a batch of puts leaves the cache unchanged while both bounds
// stay strict.
#[test]
fn test_update_cache_put_idempotent() {
    let mut cache = TrieCache::with_capacities(10, 0, false);
    let ops = vec![
        (hash(&[1]), Some(rc_bytes(&[1], 1))),
        (hash(&[2, 2]), Some(rc_bytes(&[2, 2], 1))),
    ];
    cache.update_cache(ops.clone());
    let len1 = cache.len();
    let total1 = cache.current_total_size();
    cache.update_cache(ops);
    assert_eq!(cache.len(), len1);
    assert_eq!(cache.current_total_size(), total1);
    assert_eq!(cache.get(&hash(&[1])), Some(vec![1]));
    assert_eq!(cache.get(&hash(&[2, 2])), Some(vec![2, 2]));
}

// A stored value whose decoded reference count is zero indicates deletion:
// the batched update treats it as a deferred pop and caches nothing.
#[test]
fn test_update_cache_zero_rc_pops() {
    let mut cache = TrieCache::with_capacities(10, 0, false);
    cache.put(hash(&[1]), vec![1]);
    cache.update_cache(vec![(hash(&[9]), Some(rc_bytes(&[9], 0)))]);
    assert_eq!(cache.get(&hash(&[9])), None);
    assert_eq!(cache.len(), 1);
    // On a cached hash, the zero-count op queues a deferred deletion; the
    // entry stays until its hash spills out of the deletions queue.
    cache.update_cache(vec![(hash(&[1]), Some(rc_bytes(&[1], 0)))]);
    assert_eq!(cache.len(), 1);
    assert_eq!(cache.current_total_size(), 1);
}

// Putting an existing key replaces its value without growing the cache.
#[test]
fn test_put_replaces_value() {
    let mut cache = TrieCacheInner::new(10, 10, 100, 0, false);
    let key = hash(&[1]);
    cache.put(key, vec![1]);
    cache.put(key, vec![2, 2]);
    assert_eq!(cache.len(), 1);
    assert_eq!(cache.current_total_size(), 2);
    assert_eq!(cache.get(&key), Some(vec![2, 2]));
}

#[test]
fn test_trie_cache_clear() {
    let mut cache = TrieCache::with_capacities(10, 0, false);
    cache.put(hash(&[9]), vec![9]);
    assert_eq!(cache.len(), 1);
    cache.clear();
    assert_eq!(cache.len(), 0);
    assert_eq!(cache.current_total_size(), 0);
    assert_eq!(cache.get(&hash(&[9])), None);
}
