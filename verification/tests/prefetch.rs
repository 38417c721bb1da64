use trie_storage::prefetch::{
    prefetch_state_matches, PrefetchSlot, PrefetchStagingArea, PrefetcherResult, StagingLookup,
    MAX_PREFETCH_STAGING_MEMORY, PREFETCH_RESERVED_BYTES_PER_SLOT,
};
use trie_storage::primitives::CryptoHash;

fn h(n: u64) -> CryptoHash {
    CryptoHash::new(n, 0, 0, 0)
}

#[test]
fn test_prefetch_state_matches() {
    assert!(prefetch_state_matches(
        PrefetchSlot::PendingPrefetch,
        &PrefetchSlot::PendingPrefetch
    ));
    assert!(prefetch_state_matches(PrefetchSlot::PendingFetch, &PrefetchSlot::PendingFetch));
    assert!(prefetch_state_matches(PrefetchSlot::Done(vec![]), &PrefetchSlot::Done(vec![1])));
    assert!(!prefetch_state_matches(PrefetchSlot::PendingPrefetch, &PrefetchSlot::PendingFetch));
    assert!(!prefetch_state_matches(PrefetchSlot::Done(vec![]), &PrefetchSlot::PendingPrefetch));
    assert!(!prefetch_state_matches(PrefetchSlot::PendingFetch, &PrefetchSlot::Done(vec![2])));
}

// At every quiescent moment the accounted bytes are the sum of one full
// reservation per pending slot and the value length per done slot.
#[test]
fn test_staging_size_accounting() {
    let mut staging = PrefetchStagingArea::new();
    assert_eq!(staging.size_bytes(), 0);

    // A worker reserves a slot: one full reservation.
    match staging.get_and_set_if_empty(h(1), PrefetchSlot::PendingPrefetch) {
        PrefetcherResult::SlotReserved => {}
        _ => panic!("expected a fresh reservation"),
    }
    assert_eq!(staging.size_bytes(), PREFETCH_RESERVED_BYTES_PER_SLOT);

    // The main thread reserves another.
    match staging.get_and_set_if_empty(h(2), PrefetchSlot::PendingFetch) {
        PrefetcherResult::SlotReserved => {}
        _ => panic!("expected a fresh reservation"),
    }
    assert_eq!(staging.size_bytes(), 2 * PREFETCH_RESERVED_BYTES_PER_SLOT);

    // The worker completes: its reservation becomes three bytes.
    staging.insert_fetched(h(1), vec![1, 2, 3]);
    assert_eq!(staging.size_bytes(), PREFETCH_RESERVED_BYTES_PER_SLOT + 3);

    // Releasing gives each slot's cost back.
    staging.release(&h(1));
    assert_eq!(staging.size_bytes(), PREFETCH_RESERVED_BYTES_PER_SLOT);
    staging.release(&h(2));
    assert_eq!(staging.size_bytes(), 0);
    assert_eq!(staging.slot_count(), 0);

    // Releasing an absent slot is permitted and changes nothing.
    staging.release(&h(3));
    assert_eq!(staging.size_bytes(), 0);
}

#[test]
fn test_staging_second_request_waits() {
    let mut staging = PrefetchStagingArea::new();
    match staging.get_and_set_if_empty(h(1), PrefetchSlot::PendingPrefetch) {
        PrefetcherResult::SlotReserved => {}
        _ => panic!("expected a fresh reservation"),
    }
    // A second requester for the same hash is never sent to the store.
    match staging.get_and_set_if_empty(h(1), PrefetchSlot::PendingFetch) {
        PrefetcherResult::Pending => {}
        _ => panic!("expected to wait on the in-flight fetch"),
    }
    // Once the value is parked, later requesters get it directly.
    staging.insert_fetched(h(1), vec![9]);
    match staging.get_and_set_if_empty(h(1), PrefetchSlot::PendingFetch) {
        PrefetcherResult::Prefetched(v) => assert_eq!(v, vec![9]),
        _ => panic!("expected the staged value"),
    }
}

#[test]
fn test_staging_poll() {
    let mut staging = PrefetchStagingArea::new();
    match staging.poll_fetched(&h(1)) {
        StagingLookup::Gone => {}
        _ => panic!("an absent slot reads as gone"),
    }
    let _ = staging.get_and_set_if_empty(h(1), PrefetchSlot::PendingPrefetch);
    match staging.poll_fetched(&h(1)) {
        StagingLookup::NotYet => {}
        _ => panic!("a pending slot is not ready"),
    }
    assert!(staging.pending_prefetch(&h(1)));
    staging.insert_fetched(h(1), vec![4, 2]);
    assert!(!staging.pending_prefetch(&h(1)));
    match staging.poll_fetched(&h(1)) {
        StagingLookup::Ready(v) => assert_eq!(v, vec![4, 2]),
        _ => panic!("a done slot is ready"),
    }
}

// The budget admits exactly as many reservations as fit; one more is turned
// away without any state change.
#[test]
fn test_staging_memory_limit() {
    let mut staging = PrefetchStagingArea::new();
    let full: usize = MAX_PREFETCH_STAGING_MEMORY / PREFETCH_RESERVED_BYTES_PER_SLOT;
    for i in 0..full {
        match staging.get_and_set_if_empty(h(i as u64), PrefetchSlot::PendingPrefetch) {
            PrefetcherResult::SlotReserved => {}
            _ => panic!("the budget still has room"),
        }
    }
    assert_eq!(staging.size_bytes(), MAX_PREFETCH_STAGING_MEMORY);
    match staging.get_and_set_if_empty(h(full as u64), PrefetchSlot::PendingPrefetch) {
        PrefetcherResult::MemoryLimitReached => {}
        _ => panic!("the budget is exhausted"),
    }
    assert_eq!(staging.size_bytes(), MAX_PREFETCH_STAGING_MEMORY);
    assert_eq!(staging.slot_count(), full);
}
