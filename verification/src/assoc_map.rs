//! A map from hashes to values, backed by a vector of pairs with distinct
//! keys. The chunk cache, the prefetch staging area and the proof-building
//! storages all hold their entries in one of these.

use crate::primitives::CryptoHash;
use vstd::prelude::*;

verus! {

/// The first position whose key is `k`, or `-1` if no entry has that key.
pub open spec fn key_index<V>(s: Seq<(CryptoHash, V)>, k: CryptoHash) -> int
    decreases s.len(),
{
    if s.len() == 0 {
        -1
    } else if s[0].0 == k {
        0
    } else {
        let r = key_index(s.drop_first(), k);
        if r < 0 {
            -1
        } else {
            r + 1
        }
    }
}

/// Whether some entry of `s` has key `k`.
pub open spec fn has_key<V>(s: Seq<(CryptoHash, V)>, k: CryptoHash) -> bool {
    key_index(s, k) >= 0
}

/// The value stored under `k`.
pub open spec fn value_of<V>(s: Seq<(CryptoHash, V)>, k: CryptoHash) -> V {
    s[key_index(s, k)].1
}

/// No two entries share a key.
pub open spec fn distinct_keys<V>(s: Seq<(CryptoHash, V)>) -> bool {
    forall|i: int, j: int| 0 <= i < j < s.len() ==> s[i].0 != s[j].0
}

/// `key_index` finds exactly the positions that carry `k`.
pub proof fn lemma_key_index<V>(s: Seq<(CryptoHash, V)>, k: CryptoHash)
    ensures
        has_key(s, k) <==> exists|i: int| 0 <= i < s.len() && s[i].0 == k,
        has_key(s, k) ==> {
            &&& 0 <= key_index(s, k) < s.len()
            &&& s[key_index(s, k)].0 == k
            &&& forall|i: int| 0 <= i < key_index(s, k) ==> s[i].0 != k
        },
    decreases s.len(),
{
    if s.len() == 0 {
    } else if s[0].0 == k {
    } else {
        lemma_key_index(s.drop_first(), k);
        if has_key(s.drop_first(), k) {
            let j = key_index(s.drop_first(), k);
            assert(s[j + 1] == s.drop_first()[j]);
            assert(forall|i: int|
                1 <= i < j + 1 ==> s[i] == s.drop_first()[i - 1] && s.drop_first()[i - 1].0 != k);
        } else {
            assert(forall|i: int| 1 <= i < s.len() ==> s[i] == s.drop_first()[i - 1]);
            assert(forall|i: int| 0 <= i < s.len() ==> s[i].0 != k);
        }
    }
}

/// A key occurring at position `i` of a distinct-key sequence is found there.
pub proof fn lemma_key_index_at<V>(s: Seq<(CryptoHash, V)>, i: int)
    requires
        distinct_keys(s),
        0 <= i < s.len(),
    ensures
        key_index(s, s[i].0) == i,
{
    lemma_key_index(s, s[i].0);
    let j = key_index(s, s[i].0);
    if i != j {
        assert(s[i].0 == s[j].0);
    }
}

/// What inserting `(k, v)` does to an entry sequence: a replaced entry
/// leaves its position and the binding stands at the back.
pub open spec fn assoc_insert<V>(s: Seq<(CryptoHash, V)>, k: CryptoHash, v: V) -> Seq<
    (CryptoHash, V),
> {
    if has_key(s, k) {
        s.remove(key_index(s, k)).push((k, v))
    } else {
        s.push((k, v))
    }
}

/// Inserting binds `k` to `v` and touches no other key.
pub proof fn lemma_assoc_insert<V>(s: Seq<(CryptoHash, V)>, k: CryptoHash, v: V)
    requires
        distinct_keys(s),
    ensures
        distinct_keys(assoc_insert(s, k, v)),
        has_key(assoc_insert(s, k, v), k),
        value_of(assoc_insert(s, k, v), k) == v,
        forall|x: CryptoHash| x != k ==> has_key(assoc_insert(s, k, v), x) == has_key(s, x),
        forall|x: CryptoHash|
            x != k && has_key(s, x) ==> value_of(assoc_insert(s, k, v), x) == value_of(s, x),
{
    let t = assoc_insert(s, k, v);
    if has_key(s, k) {
        let d = key_index(s, k);
        lemma_key_index(s, k);
        let u = s.remove(d);
        lemma_distinct_remove_keys(s, d);
        assert forall|p: int, q: int| 0 <= p < q < t.len() implies t[p].0 != t[q].0 by {
            if q < t.len() - 1 {
                assert(t[p] == u[p] && t[q] == u[q]);
            } else {
                assert(t[p] == u[p]);
                let j = if p < d {
                    p
                } else {
                    p + 1
                };
                assert(u[p] == s[j]);
                if s[j].0 == k {
                    lemma_key_index_at(s, j);
                }
            }
        }
        lemma_key_index_at(t, t.len() - 1);
        assert forall|x: CryptoHash| x != k implies has_key(t, x) == has_key(s, x) by {
            lemma_key_index(t, x);
            lemma_key_index(s, x);
            if has_key(s, x) {
                let j = key_index(s, x);
                let j2 = if j < d {
                    j
                } else {
                    j - 1
                };
                assert(t[j2] == u[j2]);
                assert(u[j2] == s[j]);
            }
            if has_key(t, x) {
                let j = key_index(t, x);
                assert(t[j] == u[j]);
                let j2 = if j < d {
                    j
                } else {
                    j + 1
                };
                assert(u[j] == s[j2]);
            }
        }
        assert forall|x: CryptoHash| x != k && has_key(s, x) implies value_of(t, x) == value_of(
            s,
            x,
        ) by {
            lemma_key_index(s, x);
            let j = key_index(s, x);
            let j2 = if j < d {
                j
            } else {
                j - 1
            };
            assert(t[j2] == u[j2]);
            assert(u[j2] == s[j]);
            lemma_key_index_at(t, j2);
        }
    } else {
        lemma_key_index(s, k);
        assert forall|p: int, q: int| 0 <= p < q < t.len() implies t[p].0 != t[q].0 by {
            if q < t.len() - 1 {
                assert(t[p] == s[p] && t[q] == s[q]);
            } else {
                assert(t[p] == s[p]);
            }
        }
        lemma_key_index_at(t, t.len() - 1);
        assert forall|x: CryptoHash| x != k implies has_key(t, x) == has_key(s, x) by {
            lemma_key_index(t, x);
            lemma_key_index(s, x);
            if has_key(s, x) {
                let j = key_index(s, x);
                assert(t[j] == s[j]);
            }
            if has_key(t, x) {
                let j = key_index(t, x);
                assert(t[j] == s[j]);
            }
        }
        assert forall|x: CryptoHash| x != k && has_key(s, x) implies value_of(t, x) == value_of(
            s,
            x,
        ) by {
            lemma_key_index(s, x);
            let j = key_index(s, x);
            assert(t[j] == s[j]);
            lemma_key_index_at(t, j);
        }
    }
}

/// Removing an entry keeps the keys distinct.
pub proof fn lemma_distinct_remove_keys<V>(s: Seq<(CryptoHash, V)>, i: int)
    requires
        distinct_keys(s),
        0 <= i < s.len(),
    ensures
        distinct_keys(s.remove(i)),
{
    let t = s.remove(i);
    assert forall|p: int, q: int| 0 <= p < q < t.len() implies t[p].0 != t[q].0 by {
        assert(t[p] == if p < i {
            s[p]
        } else {
            s[p + 1]
        });
        assert(t[q] == if q < i {
            s[q]
        } else {
            s[q + 1]
        });
    }
}

/// A map from hashes to values with at most one entry per key.
pub struct AssocMap<V> {
    entries: Vec<(CryptoHash, V)>,
}

impl<V> View for AssocMap<V> {
    type V = Seq<(CryptoHash, V)>;

    closed spec fn view(&self) -> Seq<(CryptoHash, V)> {
        self.entries@
    }
}

impl<V> AssocMap<V> {
    pub open spec fn inv(&self) -> bool {
        distinct_keys(self@)
    }

    pub fn new() -> (r: AssocMap<V>)
        ensures
            r@ == Seq::<(CryptoHash, V)>::empty(),
            r.inv(),
    {
        AssocMap { entries: Vec::new() }
    }

    /// The position of the entry with key `k`, if there is one.
    fn find(&self, k: &CryptoHash) -> (r: Option<usize>)
        ensures
            match r {
                Some(i) => i < self@.len() && self@[i as int].0 == *k && key_index(self@, *k)
                    == i as int,
                None => !has_key(self@, *k),
            },
    {
        let n = self.entries.len();
        for i in 0..n
            invariant
                n == self@.len(),
                forall|j: int| 0 <= j < i ==> self@[j].0 != *k,
        {
            if self.entries[i].0 == *k {
                proof {
                    lemma_key_index(self@, *k);
                }
                return Some(i);
            }
        }
        proof {
            lemma_key_index(self@, *k);
        }
        None
    }

    pub fn len(&self) -> (r: usize)
        ensures
            r == self@.len(),
    {
        self.entries.len()
    }

    pub fn contains_key(&self, k: &CryptoHash) -> (r: bool)
        ensures
            r == has_key(self@, *k),
    {
        self.find(k).is_some()
    }

    /// The value under `k`, if there is one.
    pub fn get(&self, k: &CryptoHash) -> (r: Option<&V>)
        ensures
            match r {
                Some(v) => has_key(self@, *k) && *v == value_of(self@, *k),
                None => !has_key(self@, *k),
            },
    {
        match self.find(k) {
            Some(i) => Some(&self.entries[i].1),
            None => None,
        }
    }

    /// Binds `k` to `v`, returning the value it replaces, if any. A replaced
    /// entry leaves its position; the new entry stands at the back.
    pub fn insert(&mut self, k: CryptoHash, v: V) -> (r: Option<V>)
        requires
            old(self).inv(),
        ensures
            final(self).inv(),
            match r {
                Some(w) => {
                    &&& has_key(old(self)@, k)
                    &&& w == value_of(old(self)@, k)
                    &&& final(self)@ == old(self)@.remove(key_index(old(self)@, k)).push((k, v))
                },
                None => {
                    &&& !has_key(old(self)@, k)
                    &&& final(self)@ == old(self)@.push((k, v))
                },
            },
            has_key(final(self)@, k) && value_of(final(self)@, k) == v,
    {
        let ghost s0 = self@;
        let r = match self.find(&k) {
            Some(i) => {
                let (_, w) = self.entries.remove(i);
                Some(w)
            },
            None => None,
        };
        self.entries.push((k, v));
        proof {
            let s1 = self@;
            assert forall|i: int, j: int| 0 <= i < j < s1.len() implies s1[i].0 != s1[j].0 by {
                if has_key(s0, k) {
                    let d = key_index(s0, k);
                    lemma_key_index(s0, k);
                    if j < s1.len() - 1 {
                        // Both entries come from `s0` with at most a shift.
                        assert(s1[i] == if i < d {
                            s0[i]
                        } else {
                            s0[i + 1]
                        });
                        assert(s1[j] == if j < d {
                            s0[j]
                        } else {
                            s0[j + 1]
                        });
                    } else {
                        assert(s1[j].0 == k);
                        assert(s1[i] == if i < d {
                            s0[i]
                        } else {
                            s0[i + 1]
                        });
                        lemma_key_index_at(s0, d);
                        if i < d {
                            if s0[i].0 == k {
                                lemma_key_index_at(s0, i);
                            }
                        } else {
                            if s0[i + 1].0 == k {
                                lemma_key_index_at(s0, i + 1);
                            }
                        }
                    }
                } else {
                    lemma_key_index(s0, k);
                    if j == s1.len() - 1 {
                        assert(s1[i] == s0[i]);
                        assert(s1[j].0 == k);
                    } else {
                        assert(s1[i] == s0[i] && s1[j] == s0[j]);
                    }
                }
            }
            lemma_key_index_at(self@, self@.len() - 1);
        }
        r
    }

    /// Removes the entry under `k`, returning its value, if there was one.
    /// The entries behind it move up one position.
    pub fn remove(&mut self, k: &CryptoHash) -> (r: Option<V>)
        requires
            old(self).inv(),
        ensures
            final(self).inv(),
            match r {
                Some(w) => {
                    &&& has_key(old(self)@, *k)
                    &&& w == value_of(old(self)@, *k)
                    &&& final(self)@ == old(self)@.remove(key_index(old(self)@, *k))
                },
                None => {
                    &&& !has_key(old(self)@, *k)
                    &&& final(self)@ == old(self)@
                },
            },
            !has_key(final(self)@, *k),
    {
        let ghost s0 = self@;
        match self.find(k) {
            Some(i) => {
                let (_, w) = self.entries.remove(i);
                proof {
                    let s1 = self@;
                    let d = i as int;
                    assert forall|p: int, q: int| 0 <= p < q < s1.len() implies s1[p].0 != s1[q].0 by {
                        assert(s1[p] == if p < d {
                            s0[p]
                        } else {
                            s0[p + 1]
                        });
                        assert(s1[q] == if q < d {
                            s0[q]
                        } else {
                            s0[q + 1]
                        });
                    }
                    lemma_key_index(s1, *k);
                    if has_key(s1, *k) {
                        let j = key_index(s1, *k);
                        assert(s1[j] == if j < d {
                            s0[j]
                        } else {
                            s0[j + 1]
                        });
                        lemma_key_index_at(s0, d);
                        if j < d {
                            lemma_key_index_at(s0, j);
                        } else {
                            lemma_key_index_at(s0, j + 1);
                        }
                    }
                }
                Some(w)
            },
            None => None,
        }
    }
}

} // verus!
