//! A map with a fixed capacity that keeps its entries in insertion order.

use vstd::prelude::*;

verus! {

/// A key of a `BoundedMap`: keys are told apart by their views.
pub trait MapKey: View + Sized {
    /// Compares two keys.
    fn same_key(&self, other: &Self) -> (b: bool)
        ensures
            b == (self@ == other@),
    ;
}

/// Some pair of `s` has the key `k`.
pub open spec fn seq_has<A, B>(s: Seq<(A, B)>, k: A) -> bool {
    exists|i: int| 0 <= i < s.len() && (#[trigger] s[i]).0 == k
}

/// The position of a pair of `s` with the key `k`, where there is one.
pub open spec fn seq_pos<A, B>(s: Seq<(A, B)>, k: A) -> int {
    choose|i: int| 0 <= i < s.len() && (#[trigger] s[i]).0 == k
}

/// The value paired with `k` in `s`, where there is one.
pub open spec fn seq_get<A, B>(s: Seq<(A, B)>, k: A) -> B {
    s[seq_pos(s, k)].1
}

/// No key occurs twice in `s`.
pub open spec fn seq_unique<A, B>(s: Seq<(A, B)>) -> bool {
    forall|i: int, j: int| 0 <= i < j < s.len() ==> (#[trigger] s[i]).0 != (#[trigger] s[j]).0
}

/// `s` after pairing `v` with `k`: the pair of the key gets the value, or a
/// new pair goes to the end.
pub open spec fn seq_insert<A, B>(s: Seq<(A, B)>, k: A, v: B) -> Seq<(A, B)> {
    if seq_has(s, k) {
        s.update(seq_pos(s, k), (k, v))
    } else {
        s.push((k, v))
    }
}

/// In a sequence without repeated keys, a position with key `k` is the
/// position of `k`.
pub proof fn lemma_seq_pos_unique<A, B>(s: Seq<(A, B)>, k: A, i: int)
    requires
        seq_unique(s),
        0 <= i < s.len(),
        s[i].0 == k,
    ensures
        seq_has(s, k),
        seq_pos(s, k) == i,
{
    assert(seq_has(s, k));
    let p = seq_pos(s, k);
    if p < i {
        assert(s[p].0 != s[i].0);
    } else if p > i {
        assert(s[i].0 != s[p].0);
    }
}

/// Reading a key after pairing a value with it gives that value back, and
/// reading any other key gives what it gave before; the keys stay unique.
pub proof fn lemma_insert_then_get<A, B>(s: Seq<(A, B)>, k: A, v: B, other: A)
    requires
        seq_unique(s),
    ensures
        seq_unique(seq_insert(s, k, v)),
        seq_has(seq_insert(s, k, v), k),
        seq_get(seq_insert(s, k, v), k) == v,
        other != k ==> (seq_has(seq_insert(s, k, v), other) == seq_has(s, other)),
        other != k && seq_has(s, other) ==> seq_get(seq_insert(s, k, v), other) == seq_get(
            s,
            other,
        ),
{
    let t = seq_insert(s, k, v);
    if seq_has(s, k) {
        let p = seq_pos(s, k);
        assert forall|a: int, b: int| 0 <= a < b < t.len() implies (#[trigger] t[a]).0 != (
        #[trigger] t[b]).0 by {
            assert(s[a].0 != s[b].0);
        }
        lemma_seq_pos_unique(t, k, p);
        if other != k && seq_has(s, other) {
            let q = seq_pos(s, other);
            assert(t[q] == s[q]);
            lemma_seq_pos_unique(t, other, q);
        }
        if other != k && seq_has(t, other) {
            let q = seq_pos(t, other);
            assert(s[q].0 == other);
        }
    } else {
        assert forall|a: int, b: int| 0 <= a < b < t.len() implies (#[trigger] t[a]).0 != (
        #[trigger] t[b]).0 by {
            if b < s.len() {
                assert(s[a].0 != s[b].0);
            } else {
                assert(t[a] == s[a]);
            }
        }
        lemma_seq_pos_unique(t, k, s.len() as int);
        if other != k && seq_has(s, other) {
            let q = seq_pos(s, other);
            assert(t[q] == s[q]);
            lemma_seq_pos_unique(t, other, q);
        }
        if other != k && seq_has(t, other) {
            let q = seq_pos(t, other);
            assert(q < s.len());
            assert(s[q].0 == other);
        }
    }
}

/// A map of at most `N` entries, searched linearly, that keeps its entries
/// in the order in which their keys were first inserted.
#[derive(Debug)]
pub struct BoundedMap<K, V, const N: usize> {
    /// The entries, at most one for each key.
    pub entries: Vec<(K, V)>,
}

impl<K: View, V: View, const N: usize> View for BoundedMap<K, V, N> {
    type V = Seq<(K::V, V::V)>;

    open spec fn view(&self) -> Seq<(K::V, V::V)> {
        self.entries@.map_values(|e: (K, V)| (e.0@, e.1@))
    }
}

impl<K: MapKey, V: View, const N: usize> BoundedMap<K, V, N> {
    /// At most `N` entries, and no key twice.
    pub open spec fn wf(&self) -> bool {
        &&& self.entries.len() <= N
        &&& seq_unique(self@)
    }

    /// An empty map.
    pub fn new() -> (m: Self)
        ensures
            m.wf(),
            m@ == Seq::<(K::V, V::V)>::empty(),
            m.entries.len() == 0,
    {
        let m = BoundedMap { entries: Vec::new() };
        proof {
            assert(m@ =~= Seq::<(K::V, V::V)>::empty());
        }
        m
    }

    /// The number of entries.
    pub fn len(&self) -> (n: usize)
        ensures
            n == self@.len(),
    {
        self.entries.len()
    }

    /// True where the map holds no entry.
    pub fn is_empty(&self) -> (b: bool)
        ensures
            b == (self@.len() == 0),
    {
        self.entries.len() == 0
    }

    /// Finds the position of the entry with key `key`.
    pub fn find(&self, key: &K) -> (r: Option<usize>)
        requires
            self.wf(),
        ensures
            r matches Some(i) ==> seq_has(self@, key@) && i == seq_pos(self@, key@) && i
                < self.entries.len(),
            r is None <==> !seq_has(self@, key@),
    {
        let mut i: usize = 0;
        while i < self.entries.len()
            invariant
                self.wf(),
                0 <= i <= self.entries.len(),
                forall|j: int| 0 <= j < i ==> (#[trigger] self@[j]).0 != key@,
            decreases self.entries.len() - i,
        {
            if self.entries[i].0.same_key(key) {
                proof {
                    lemma_seq_pos_unique(self@, key@, i as int);
                }
                return Some(i);
            }
            i = i + 1;
        }
        None
    }

    /// True where some entry has the key `key`.
    pub fn contains_key(&self, key: &K) -> (b: bool)
        requires
            self.wf(),
        ensures
            b == seq_has(self@, key@),
    {
        self.find(key).is_some()
    }

    /// Inserts `value` for `key`.
    ///
    /// Where an entry has the key, its value is replaced, its key and place
    /// stay, and the old value is returned. Otherwise, a new entry goes to
    /// the end, or, where the map is full, key and value are handed back.
    pub fn insert(&mut self, key: K, value: V) -> (r: Result<Option<V>, (K, V)>)
        requires
            old(self).wf(),
        ensures
            final(self).wf(),
            seq_has(old(self)@, key@) ==> (r matches Ok(Some(v)) && v@ == seq_get(
                old(self)@,
                key@,
            ) && final(self)@ == seq_insert(old(self)@, key@, value@)),
            !seq_has(old(self)@, key@) && old(self)@.len() < N ==> (r matches Ok(None)
                && final(self)@ == seq_insert(old(self)@, key@, value@)),
            !seq_has(old(self)@, key@) && old(self)@.len() >= N ==> (r matches Err((k, v)) && k
                == key && v == value && final(self)@ == old(self)@ && *final(self) == *old(self)),
    {
        match self.find(&key) {
            Some(i) => {
                let (k, v) = self.entries.remove(i);
                self.entries.insert(i, (k, value));
                proof {
                    assert(self@ =~= old(self)@.update(i as int, (key@, value@)));
                    assert forall|a: int, b: int| 0 <= a < b < self@.len() implies (
                    #[trigger] self@[a]).0 != (#[trigger] self@[b]).0 by {
                        assert(old(self)@[a].0 != old(self)@[b].0);
                    }
                }
                Ok(Some(v))
            },
            None => {
                if self.entries.len() >= N {
                    return Err((key, value));
                }
                self.entries.push((key, value));
                proof {
                    assert(self@ =~= old(self)@.push((key@, value@)));
                    assert forall|a: int, b: int| 0 <= a < b < self@.len() implies (
                    #[trigger] self@[a]).0 != (#[trigger] self@[b]).0 by {
                        if b < old(self)@.len() {
                            assert(old(self)@[a].0 != old(self)@[b].0);
                        } else {
                            assert(old(self)@[a] == self@[a]);
                        }
                    }
                }
                Ok(None)
            },
        }
    }
}

} // verus!
