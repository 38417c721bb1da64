//! Trusted view of the outside LRU cache.
//!
//! The shard cache keeps its entries in `lru::LruCache`. Verus does not read
//! that crate, so this module declares the type and gives each method the
//! shard cache calls a wrapper whose contract states, over a recency-ordered
//! sequence of entries, what the crate's source shows. The sequence runs from
//! the most recently used entry to the least recently used one.

use crate::assoc_map::{has_key, key_index, value_of};
use crate::primitives::CryptoHash;
use lru::LruCache;
use vstd::prelude::*;

verus! {

#[verifier::external_type_specification]
#[verifier::external_body]
#[verifier::reject_recursive_types(K)]
#[verifier::reject_recursive_types(V)]
#[verifier::reject_recursive_types(S)]
pub struct ExLruCache<K, V, S>(LruCache<K, V, S>);

/// The entries of the cache, most recently used first.
pub uninterp spec fn lru_entries(c: LruCache<CryptoHash, Vec<u8>>) -> Seq<(CryptoHash, Seq<u8>)>;

/// The capacity the cache was created with.
pub uninterp spec fn lru_capacity(c: LruCache<CryptoHash, Vec<u8>>) -> nat;

/// `s` with the entry for `k` moved to the most-recent position and its
/// value replaced by `v`.
pub open spec fn entry_to_front(
    s: Seq<(CryptoHash, Seq<u8>)>,
    k: CryptoHash,
    v: Seq<u8>,
) -> Seq<(CryptoHash, Seq<u8>)> {
    seq![(k, v)] + s.remove(key_index(s, k))
}

/// Relies on `lru::LruCache::new`: the cache starts empty, with the given
/// capacity.
#[verifier::external_body]
pub fn lru_new(cap: usize) -> (r: LruCache<CryptoHash, Vec<u8>>)
    ensures
        lru_entries(r) == Seq::<(CryptoHash, Seq<u8>)>::empty(),
        lru_capacity(r) == cap as nat,
{
    LruCache::new(cap)
}

/// Relies on `lru::LruCache::len`: the number of entries held.
#[verifier::external_body]
pub fn lru_len(c: &LruCache<CryptoHash, Vec<u8>>) -> (r: usize)
    ensures
        r == lru_entries(*c).len(),
{
    c.len()
}

/// Relies on `lru::LruCache::cap`: the capacity the cache was created with.
#[verifier::external_body]
pub fn lru_cap(c: &LruCache<CryptoHash, Vec<u8>>) -> (r: usize)
    ensures
        r == lru_capacity(*c),
{
    c.cap()
}

/// Relies on `lru::LruCache::contains`: whether a key is present; recency is
/// not touched.
#[verifier::external_body]
pub fn lru_contains(c: &LruCache<CryptoHash, Vec<u8>>, k: &CryptoHash) -> (r: bool)
    ensures
        r == has_key(lru_entries(*c), *k),
{
    c.contains(k)
}

/// Relies on `lru::LruCache::get`: returns the value under the key, moving
/// its entry to the most-recent position; a miss changes nothing.
#[verifier::external_body]
pub fn lru_get(c: &mut LruCache<CryptoHash, Vec<u8>>, k: &CryptoHash) -> (r: Option<Vec<u8>>)
    ensures
        lru_capacity(*final(c)) == lru_capacity(*old(c)),
        has_key(lru_entries(*old(c)), *k) ==> (r matches Some(v) && v@ == value_of(
            lru_entries(*old(c)),
            *k,
        )),
        has_key(lru_entries(*old(c)), *k) ==> lru_entries(*final(c)) == entry_to_front(
            lru_entries(*old(c)),
            *k,
            value_of(lru_entries(*old(c)), *k),
        ),
        !has_key(lru_entries(*old(c)), *k) ==> r is None && lru_entries(*final(c)) == lru_entries(
            *old(c),
        ),
{
    c.get(k).cloned()
}

/// Relies on `lru::LruCache::pop`: removes the entry under the key and
/// returns its value; the order of the other entries is kept.
#[verifier::external_body]
pub fn lru_pop(c: &mut LruCache<CryptoHash, Vec<u8>>, k: &CryptoHash) -> (r: Option<Vec<u8>>)
    ensures
        lru_capacity(*final(c)) == lru_capacity(*old(c)),
        has_key(lru_entries(*old(c)), *k) ==> (r matches Some(v) && v@ == value_of(
            lru_entries(*old(c)),
            *k,
        )),
        has_key(lru_entries(*old(c)), *k) ==> lru_entries(*final(c)) == lru_entries(
            *old(c),
        ).remove(key_index(lru_entries(*old(c)), *k)),
        !has_key(lru_entries(*old(c)), *k) ==> r is None && lru_entries(*final(c)) == lru_entries(
            *old(c),
        ),
{
    c.pop(k)
}

/// Relies on `lru::LruCache::pop_lru`: removes and returns the least
/// recently used entry, if any.
#[verifier::external_body]
pub fn lru_pop_lru(c: &mut LruCache<CryptoHash, Vec<u8>>) -> (r: Option<(CryptoHash, Vec<u8>)>)
    ensures
        lru_capacity(*final(c)) == lru_capacity(*old(c)),
        lru_entries(*old(c)).len() > 0 ==> (r matches Some(p) && p.0 == lru_entries(
            *old(c),
        ).last().0 && p.1@ == lru_entries(*old(c)).last().1),
        lru_entries(*old(c)).len() > 0 ==> lru_entries(*final(c)) == lru_entries(
            *old(c),
        ).drop_last(),
        lru_entries(*old(c)).len() == 0 ==> r is None && lru_entries(*final(c)) == lru_entries(
            *old(c),
        ),
{
    c.pop_lru()
}

/// Relies on `lru::LruCache::push` on a cache of positive capacity: an
/// existing entry is replaced and promoted, its old pair returned; a new key
/// enters at the most-recent position, evicting the least recently used
/// entry exactly when the cache was full.
#[verifier::external_body]
pub fn lru_push(c: &mut LruCache<CryptoHash, Vec<u8>>, k: CryptoHash, v: Vec<u8>) -> (r: Option<
    (CryptoHash, Vec<u8>),
>)
    requires
        lru_capacity(*old(c)) >= 1,
    ensures
        lru_capacity(*final(c)) == lru_capacity(*old(c)),
        has_key(lru_entries(*old(c)), k) ==> (r matches Some(p) && p.0 == k && p.1@ == value_of(
            lru_entries(*old(c)),
            k,
        )),
        has_key(lru_entries(*old(c)), k) ==> lru_entries(*final(c)) == entry_to_front(
            lru_entries(*old(c)),
            k,
            v@,
        ),
        (!has_key(lru_entries(*old(c)), k) && lru_entries(*old(c)).len() < lru_capacity(*old(c)))
            ==> r is None && lru_entries(*final(c)) == seq![(k, v@)] + lru_entries(*old(c)),
        (!has_key(lru_entries(*old(c)), k) && lru_entries(*old(c)).len() >= lru_capacity(*old(c)))
            ==> (r matches Some(p) && p.0 == lru_entries(*old(c)).last().0 && p.1@ == lru_entries(
            *old(c),
        ).last().1),
        (!has_key(lru_entries(*old(c)), k) && lru_entries(*old(c)).len() >= lru_capacity(*old(c)))
            ==> lru_entries(*final(c)) == seq![(k, v@)] + lru_entries(*old(c)).drop_last(),
{
    c.push(k, v)
}

/// Relies on `lru::LruCache::clear`: removes every entry.
#[verifier::external_body]
pub fn lru_clear(c: &mut LruCache<CryptoHash, Vec<u8>>)
    ensures
        lru_capacity(*final(c)) == lru_capacity(*old(c)),
        lru_entries(*final(c)) == Seq::<(CryptoHash, Seq<u8>)>::empty(),
{
    c.clear()
}

} // verus!
