use trie_storage::bounded_queue::BoundedQueue;

#[test]
fn test_put_pop() {
    let mut queue = BoundedQueue::new(2);
    assert_eq!(queue.put(1), None);
    assert_eq!(queue.put(2), None);
    assert_eq!(queue.put(3), Some(1));

    assert_eq!(queue.pop(), Some(2));
    assert_eq!(queue.pop(), Some(3));
    assert_eq!(queue.pop(), None);
}

#[test]
fn test_clear() {
    let mut queue = BoundedQueue::new(2);
    let _ = queue.put(1);
    assert_eq!(queue.get(0), Some(&1));
    queue.clear();
    assert!(queue.is_empty());
}

#[test]
fn test_zero_capacity() {
    let mut queue = BoundedQueue::new(0);
    assert_eq!(queue.put(1), Some(1));
    assert!(queue.is_empty());
}

// After N puts into a queue of capacity C, the length is min(N, C) and the
// first max(0, N - C) elements come back as evictions, in order.
#[test]
fn test_eviction_order() {
    let mut queue = BoundedQueue::new(3);
    let mut evicted = Vec::new();
    for x in 0..7 {
        if let Some(y) = queue.put(x) {
            evicted.push(y);
        }
    }
    assert_eq!(queue.len(), 3);
    assert_eq!(evicted, vec![0, 1, 2, 3]);
    assert_eq!(queue.pop(), Some(4));
    assert_eq!(queue.pop(), Some(5));
    assert_eq!(queue.pop(), Some(6));
    assert_eq!(queue.pop(), None);
}

#[test]
fn test_fewer_puts_than_capacity() {
    let mut queue = BoundedQueue::new(5);
    assert_eq!(queue.put("a"), None);
    assert_eq!(queue.put("b"), None);
    assert_eq!(queue.len(), 2);
    assert_eq!(queue.get(0), Some(&"a"));
    assert_eq!(queue.get(1), Some(&"b"));
    assert_eq!(queue.get(2), None);
}
