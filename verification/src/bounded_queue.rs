//! A fixed-capacity FIFO queue.
//!
//! `put` appends at the back; if the length then exceeds the capacity, the
//! head element is removed and returned. With capacity zero, `put` returns
//! its argument at once and nothing is ever stored. The shard cache uses
//! this as its deferred-deletion queue.

use std::collections::VecDeque;
use vstd::prelude::*;

verus! {

/// What one `put` of `x` does to a queue `s` of capacity `cap`:
/// the new contents and the evicted head, if any.
pub open spec fn spec_bounded_put<T>(s: Seq<T>, cap: nat, x: T) -> (Seq<T>, Option<T>) {
    let appended = s.push(x);
    if appended.len() > cap {
        (appended.drop_first(), Some(appended[0]))
    } else {
        (appended, None)
    }
}

/// The queue contents and the evicted elements, in order, after `put`ting
/// every element of `xs` in turn into an empty queue of capacity `cap`.
pub open spec fn spec_put_sequence<T>(cap: nat, xs: Seq<T>) -> (Seq<T>, Seq<T>)
    decreases xs.len(),
{
    if xs.len() == 0 {
        (Seq::empty(), Seq::empty())
    } else {
        let (q, evicted) = spec_put_sequence(cap, xs.drop_last());
        let (q2, e) = spec_bounded_put(q, cap, xs.last());
        match e {
            Some(y) => (q2, evicted.push(y)),
            None => (q2, evicted),
        }
    }
}

/// An ordered sequence with a fixed capacity; when a `put` pushes the length
/// over the capacity, the head is removed.
pub struct BoundedQueue<T> {
    queue: VecDeque<T>,
    capacity: usize,
}

impl<T> View for BoundedQueue<T> {
    type V = Seq<T>;

    closed spec fn view(&self) -> Seq<T> {
        self.queue@
    }
}

impl<T> BoundedQueue<T> {
    /// The capacity fixed at construction.
    pub closed spec fn spec_capacity(&self) -> nat {
        self.capacity as nat
    }

    /// The queue never holds more elements than its capacity.
    pub open spec fn inv(&self) -> bool {
        self@.len() <= self.spec_capacity()
    }

    pub fn new(capacity: usize) -> (r: BoundedQueue<T>)
        ensures
            r@ == Seq::<T>::empty(),
            r.spec_capacity() == capacity,
            r.inv(),
    {
        BoundedQueue { queue: VecDeque::new(), capacity }
    }

    pub fn clear(&mut self)
        ensures
            final(self)@ == Seq::<T>::empty(),
            final(self).spec_capacity() == old(self).spec_capacity(),
            final(self).inv(),
    {
        self.queue.clear();
    }

    /// Removes and returns the head, if the queue is non-empty.
    pub fn pop(&mut self) -> (r: Option<T>)
        ensures
            final(self).spec_capacity() == old(self).spec_capacity(),
            old(self)@.len() == 0 ==> r is None && final(self)@ == old(self)@,
            old(self)@.len() > 0 ==> r == Some(old(self)@[0]) && final(self)@ == old(
                self,
            )@.drop_first(),
            old(self).inv() ==> final(self).inv(),
    {
        self.queue.pop_front()
    }

    /// Appends `key`; if the queue then exceeds its capacity, removes and
    /// returns the head.
    pub fn put(&mut self, key: T) -> (evicted: Option<T>)
        requires
            old(self).inv(),
        ensures
            final(self).spec_capacity() == old(self).spec_capacity(),
            (final(self)@, evicted) == spec_bounded_put(
                old(self)@,
                old(self).spec_capacity(),
                key,
            ),
            final(self).inv(),
    {
        self.queue.push_back(key);
        if self.queue.len() > self.capacity {
            self.pop()
        } else {
            None
        }
    }

    pub fn len(&self) -> (r: usize)
        ensures
            r == self@.len(),
    {
        self.queue.len()
    }

    pub fn is_empty(&self) -> (r: bool)
        ensures
            r == (self@.len() == 0),
    {
        self.queue.len() == 0
    }

    /// The element at `index`, counted from the head, if there is one.
    pub fn get(&self, index: usize) -> (r: Option<&T>)
        ensures
            index < self@.len() ==> r == Some(&self@[index as int]),
            index >= self@.len() ==> r is None,
    {
        if index < self.queue.len() {
            Some(&self.queue[index])
        } else {
            None
        }
    }
}

/// After `put`ting `xs.len()` elements into an empty queue of capacity `cap`,
/// the queue holds the last `min(xs.len(), cap)` of them, and the first
/// `max(0, xs.len() - cap)` elements were returned as evictions, in order.
pub proof fn lemma_put_sequence<T>(cap: nat, xs: Seq<T>)
    ensures
        ({
            let (q, evicted) = spec_put_sequence(cap, xs);
            &&& q.len() == if xs.len() <= cap {
                xs.len()
            } else {
                cap
            }
            &&& q == xs.skip(xs.len() - q.len())
            &&& evicted == xs.take(xs.len() - q.len())
        }),
    decreases xs.len(),
{
    if xs.len() == 0 {
        let (q, evicted) = spec_put_sequence(cap, xs);
        assert(q == xs.skip(0));
        assert(evicted == xs.take(0));
    } else {
        let prefix = xs.drop_last();
        lemma_put_sequence(cap, prefix);
        let (q0, ev0) = spec_put_sequence(cap, prefix);
        let (q, evicted) = spec_put_sequence(cap, xs);
        let appended = q0.push(xs.last());
        if appended.len() > cap {
            // One element is evicted: the previous head, or the new element
            // itself when the capacity is zero.
            assert(q0.len() == cap);
            assert(q =~= appended.drop_first());
            assert(q =~= xs.skip(xs.len() - cap));
            assert(evicted =~= ev0.push(appended[0]));
            assert(evicted =~= xs.take(xs.len() - cap));
        } else {
            assert(q =~= appended);
            assert(q =~= xs.skip(xs.len() - q.len()));
            assert(evicted =~= xs.take(xs.len() - q.len()));
        }
    }
}

} // verus!
