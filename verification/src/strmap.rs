//! An ordered map keyed by strings: the entries are kept sorted by key in
//! code-point order (the order of a `BTreeMap<String, _>`), each key once.

use vstd::prelude::*;

use crate::text::{
    lemma_seq_lt_irreflexive, lemma_seq_lt_total,
    lemma_seq_lt_transitive, seq_lt, str_lt,
};

verus! {

/// A value that can be copied into a fresh value with the same view.
pub trait Dup: View + Sized {
    fn dup(&self) -> (r: Self)
        ensures
            r@ == self@,
    ;
}

impl Dup for String {
    fn dup(&self) -> (r: String) {
        self.clone()
    }
}

/// Keys in strictly increasing code-point order.
pub open spec fn keys_sorted(ks: Seq<Seq<char>>) -> bool {
    forall|i: int, j: int| 0 <= i < j < ks.len() ==> seq_lt(#[trigger] ks[i], #[trigger] ks[j])
}

/// The map that pairs `keys[i]` with `vals[i]`.
pub open spec fn map_of<W>(keys: Seq<Seq<char>>, vals: Seq<W>) -> Map<Seq<char>, W> {
    Map::new(|k: Seq<char>| keys.contains(k), |k: Seq<char>| vals[keys.index_of(k)])
}

pub proof fn lemma_sorted_no_duplicates(ks: Seq<Seq<char>>)
    requires
        keys_sorted(ks),
    ensures
        ks.no_duplicates(),
{
    assert forall|i: int, j: int| 0 <= i < ks.len() && 0 <= j < ks.len() && i != j implies ks[i]
        != ks[j] by {
        if i < j {
            assert(seq_lt(ks[i], ks[j]));
            lemma_seq_lt_irreflexive(ks[i]);
        } else {
            assert(seq_lt(ks[j], ks[i]));
            lemma_seq_lt_irreflexive(ks[j]);
        }
    }
}

proof fn lemma_map_of_at<W>(keys: Seq<Seq<char>>, vals: Seq<W>, i: int)
    requires
        keys.no_duplicates(),
        0 <= i < keys.len(),
    ensures
        map_of(keys, vals).contains_key(keys[i]),
        map_of(keys, vals)[keys[i]] == vals[i],
{
    assert(keys.contains(keys[i]));
    let j = keys.index_of(keys[i]);
    assert(keys[j] == keys[i]);
}

proof fn lemma_map_of_finite<W>(keys: Seq<Seq<char>>, vals: Seq<W>)
    requires
        keys.no_duplicates(),
    ensures
        map_of(keys, vals).dom() =~= keys.to_set(),
        map_of(keys, vals).dom().finite(),
        map_of(keys, vals).dom().len() == keys.len(),
{
    keys.unique_seq_to_set();
}

proof fn lemma_map_of_update<W>(keys: Seq<Seq<char>>, vals: Seq<W>, i: int, w: W)
    requires
        keys.no_duplicates(),
        keys.len() == vals.len(),
        0 <= i < keys.len(),
    ensures
        map_of(keys, vals.update(i, w)) =~= map_of(keys, vals).insert(keys[i], w),
{
    let m1 = map_of(keys, vals.update(i, w));
    let m2 = map_of(keys, vals).insert(keys[i], w);
    assert forall|k: Seq<char>| #[trigger] m1.contains_key(k) implies m2.contains_key(k) && m1[k]
        == m2[k] by {
        let j = choose|j: int| 0 <= j < keys.len() && keys[j] == k;
        lemma_map_of_at(keys, vals.update(i, w), j);
        lemma_map_of_at(keys, vals, j);
    }
    assert forall|k: Seq<char>| #[trigger] m2.contains_key(k) implies m1.contains_key(k) by {
        if k != keys[i] {
            assert(keys.contains(k));
        } else {
            assert(keys.contains(keys[i]));
        }
    }
}

proof fn lemma_map_of_insert<W>(keys: Seq<Seq<char>>, vals: Seq<W>, p: int, k: Seq<char>, w: W)
    requires
        keys.no_duplicates(),
        keys.len() == vals.len(),
        !keys.contains(k),
        0 <= p <= keys.len(),
    ensures
        keys.insert(p, k).no_duplicates(),
        map_of(keys.insert(p, k), vals.insert(p, w)) =~= map_of(keys, vals).insert(k, w),
{
    let ks = keys.insert(p, k);
    let vs = vals.insert(p, w);
    assert forall|a: int, b: int| 0 <= a < ks.len() && 0 <= b < ks.len() && a != b implies ks[a]
        != ks[b] by {
        if a != p && b != p {
            let a0 = if a < p { a } else { a - 1 };
            let b0 = if b < p { b } else { b - 1 };
            assert(ks[a] == keys[a0] && ks[b] == keys[b0]);
        } else if a == p {
            let b0 = if b < p { b } else { b - 1 };
            assert(ks[b] == keys[b0]);
        } else {
            let a0 = if a < p { a } else { a - 1 };
            assert(ks[a] == keys[a0]);
        }
    }
    let m1 = map_of(ks, vs);
    let m2 = map_of(keys, vals).insert(k, w);
    assert forall|x: Seq<char>| #[trigger] m1.contains_key(x) implies m2.contains_key(x) && m1[x]
        == m2[x] by {
        let j = choose|j: int| 0 <= j < ks.len() && ks[j] == x;
        lemma_map_of_at(ks, vs, j);
        if j != p {
            let j0 = if j < p { j } else { j - 1 };
            assert(ks[j] == keys[j0] && vs[j] == vals[j0]);
            lemma_map_of_at(keys, vals, j0);
        }
    }
    assert forall|x: Seq<char>| #[trigger] m2.contains_key(x) implies m1.contains_key(x) by {
        if x == k {
            assert(ks[p] == k);
        } else {
            let j0 = choose|j: int| 0 <= j < keys.len() && keys[j] == x;
            let j = if j0 < p { j0 } else { j0 + 1 };
            assert(ks[j] == x);
        }
    }
}

proof fn lemma_map_of_remove<W>(keys: Seq<Seq<char>>, vals: Seq<W>, p: int)
    requires
        keys.no_duplicates(),
        keys.len() == vals.len(),
        0 <= p < keys.len(),
    ensures
        keys.remove(p).no_duplicates(),
        map_of(keys.remove(p), vals.remove(p)) =~= map_of(keys, vals).remove(keys[p]),
{
    let ks = keys.remove(p);
    let vs = vals.remove(p);
    assert forall|a: int, b: int| 0 <= a < ks.len() && 0 <= b < ks.len() && a != b implies ks[a]
        != ks[b] by {
        let a0 = if a < p { a } else { a + 1 };
        let b0 = if b < p { b } else { b + 1 };
        assert(ks[a] == keys[a0] && ks[b] == keys[b0]);
    }
    let m1 = map_of(ks, vs);
    let m2 = map_of(keys, vals).remove(keys[p]);
    assert forall|x: Seq<char>| #[trigger] m1.contains_key(x) implies m2.contains_key(x) && m1[x]
        == m2[x] by {
        let j = choose|j: int| 0 <= j < ks.len() && ks[j] == x;
        let j0 = if j < p { j } else { j + 1 };
        assert(ks[j] == keys[j0] && vs[j] == vals[j0]);
        lemma_map_of_at(ks, vs, j);
        lemma_map_of_at(keys, vals, j0);
    }
    assert forall|x: Seq<char>| #[trigger] m2.contains_key(x) implies m1.contains_key(x) by {
        let j0 = choose|j: int| 0 <= j < keys.len() && keys[j] == x;
        assert(j0 != p);
        let j = if j0 < p { j0 } else { j0 - 1 };
        assert(ks[j] == x);
    }
}

proof fn lemma_sorted_insert(keys: Seq<Seq<char>>, p: int, k: Seq<char>)
    requires
        keys_sorted(keys),
        0 <= p <= keys.len(),
        forall|i: int| 0 <= i < p ==> seq_lt(#[trigger] keys[i], k),
        p < keys.len() ==> seq_lt(k, keys[p]),
    ensures
        keys_sorted(keys.insert(p, k)),
{
    let ks = keys.insert(p, k);
    assert forall|a: int, b: int| 0 <= a < b < ks.len() implies seq_lt(
        #[trigger] ks[a],
        #[trigger] ks[b],
    ) by {
        if b < p {
            assert(ks[a] == keys[a] && ks[b] == keys[b]);
        } else if b == p {
            assert(ks[a] == keys[a]);
        } else if a == p {
            assert(ks[b] == keys[b - 1]);
            if b - 1 > p {
                assert(seq_lt(keys[p], keys[b - 1]));
                lemma_seq_lt_transitive(k, keys[p], keys[b - 1]);
            }
        } else if a < p {
            assert(ks[a] == keys[a] && ks[b] == keys[b - 1]);
            assert(seq_lt(keys[a], k));
            if b - 1 > p {
                assert(seq_lt(keys[p], keys[b - 1]));
                lemma_seq_lt_transitive(k, keys[p], keys[b - 1]);
            }
            lemma_seq_lt_transitive(keys[a], k, keys[b - 1]);
        } else {
            assert(ks[a] == keys[a - 1] && ks[b] == keys[b - 1]);
        }
    }
}

proof fn lemma_sorted_remove(keys: Seq<Seq<char>>, p: int)
    requires
        keys_sorted(keys),
        0 <= p < keys.len(),
    ensures
        keys_sorted(keys.remove(p)),
{
    let ks = keys.remove(p);
    assert forall|a: int, b: int| 0 <= a < b < ks.len() implies seq_lt(
        #[trigger] ks[a],
        #[trigger] ks[b],
    ) by {
        let a0 = if a < p { a } else { a + 1 };
        let b0 = if b < p { b } else { b + 1 };
        assert(ks[a] == keys[a0] && ks[b] == keys[b0]);
    }
}

/// An ordered map from strings to values.
#[derive(Debug)]
pub struct StrMap<V> {
    entries: Vec<(String, V)>,
}

impl<V: View> View for StrMap<V> {
    type V = Map<Seq<char>, V::V>;

    closed spec fn view(&self) -> Map<Seq<char>, V::V> {
        map_of(self.keys(), self.vals())
    }
}

impl<V> StrMap<V> {
    /// The keys, in iteration (sorted) order.
    pub closed spec fn keys(&self) -> Seq<Seq<char>> {
        self.entries@.map_values(|e: (String, V)| e.0@)
    }

    #[verifier::type_invariant]
    closed spec fn inv(&self) -> bool {
        keys_sorted(self.keys())
    }
}

impl<V: View> StrMap<V> {
    /// The views of the values, aligned with [`Self::keys`].
    closed spec fn vals(&self) -> Seq<V::V> {
        self.entries@.map_values(|e: (String, V)| e.1@)
    }

    proof fn lemma_view_at(&self, i: int)
        requires
            keys_sorted(self.keys()),
            0 <= i < self.keys().len(),
        ensures
            self@.contains_key(self.keys()[i]),
            self@[self.keys()[i]] == self.entries@[i].1@,
    {
        lemma_sorted_no_duplicates(self.keys());
        lemma_map_of_at(self.keys(), self.vals(), i);
    }

    /// An empty map.
    pub fn new() -> (r: Self)
        ensures
            r@ == Map::<Seq<char>, V::V>::empty(),
            r.keys().len() == 0,
    {
        let r = StrMap { entries: Vec::new() };
        assert(r@ =~= Map::<Seq<char>, V::V>::empty());
        r
    }

    /// The number of entries.
    pub fn len(&self) -> (n: usize)
        ensures
            n == self.keys().len(),
            n == self@.len(),
            self@.dom() == self.keys().to_set(),
            self@.dom().finite(),
            self.keys().no_duplicates(),
            keys_sorted(self.keys()),
    {
        proof {
            use_type_invariant(self);
            lemma_sorted_no_duplicates(self.keys());
            lemma_map_of_finite(self.keys(), self.vals());
        }
        self.entries.len()
    }

    /// Whether the map has no entries.
    pub fn is_empty(&self) -> (b: bool)
        ensures
            b == (self@.len() == 0),
            b == (self@ == Map::<Seq<char>, V::V>::empty()),
    {
        let n = self.len();
        if n != 0 {
            assert(self@.contains_key(self.keys()[0]));
        } else {
            assert(self@ =~= Map::<Seq<char>, V::V>::empty());
        }
        n == 0
    }

    /// The `i`-th key in order.
    pub fn key_at(&self, i: usize) -> (k: &String)
        requires
            i < self.keys().len(),
        ensures
            k@ == self.keys()[i as int],
            self@.contains_key(k@),
    {
        proof {
            use_type_invariant(self);
            self.lemma_view_at(i as int);
        }
        &self.entries[i].0
    }

    /// The value stored under the `i`-th key.
    pub fn value_at(&self, i: usize) -> (v: &V)
        requires
            i < self.keys().len(),
        ensures
            self@.contains_key(self.keys()[i as int]),
            self@[self.keys()[i as int]] == v@,
    {
        proof {
            use_type_invariant(self);
            self.lemma_view_at(i as int);
        }
        &self.entries[i].1
    }

    /// The position where `key` is or would be inserted: every key before it is smaller.
    fn search(&self, key: &str) -> (p: usize)
        ensures
            p <= self.keys().len(),
            forall|i: int| 0 <= i < p ==> seq_lt(#[trigger] self.keys()[i], key@),
            p < self.keys().len() ==> !seq_lt(self.keys()[p as int], key@),
    {
        let mut i: usize = 0;
        while i < self.entries.len() && str_lt(self.entries[i].0.as_str(), key)
            invariant
                i <= self.entries.len(),
                forall|j: int| 0 <= j < i ==> seq_lt(#[trigger] self.keys()[j], key@),
            decreases self.entries.len() - i,
        {
            i = i + 1;
        }
        i
    }

    /// Where `key` is stored, if it is.
    fn find(&self, key: &str) -> (r: Option<usize>)
        ensures
            match r {
                Some(i) => i < self.keys().len() && self.keys()[i as int] == key@,
                None => !self.keys().contains(key@),
            },
    {
        proof {
            use_type_invariant(self);
        }
        let p = self.search(key);
        if p < self.entries.len() && self.entries[p].0.as_str().unicode_len() == key.unicode_len()
            && !str_lt(key, self.entries[p].0.as_str()) {
            proof {
                let k = self.keys()[p as int];
                if k != key@ {
                    lemma_seq_lt_total(k, key@);
                }
            }
            Some(p)
        } else {
            proof {
                if self.keys().contains(key@) {
                    let j = choose|j: int| 0 <= j < self.keys().len() && self.keys()[j] == key@;
                    if j < p {
                        lemma_seq_lt_irreflexive(key@);
                    } else if j > p {
                        lemma_seq_lt_total(self.keys()[p as int], key@);
                        if self.keys()[p as int] == key@ {
                            assert(self.keys()[p as int] == self.keys()[j]);
                            lemma_sorted_no_duplicates(self.keys());
                        } else {
                            assert(seq_lt(key@, self.keys()[p as int]));
                            assert(seq_lt(self.keys()[p as int], self.keys()[j]));
                            lemma_seq_lt_transitive(key@, self.keys()[p as int], key@);
                            lemma_seq_lt_irreflexive(key@);
                        }
                    } else {
                        lemma_seq_lt_irreflexive(key@);
                    }
                }
            }
            None
        }
    }

    /// Whether `key` is present.
    pub fn contains_key(&self, key: &str) -> (b: bool)
        ensures
            b == self@.contains_key(key@),
    {
        let r = self.find(key);
        r.is_some()
    }

    /// The value under `key`, if any.
    pub fn get(&self, key: &str) -> (r: Option<&V>)
        ensures
            match r {
                Some(v) => self@.contains_key(key@) && self@[key@] == v@,
                None => !self@.contains_key(key@),
            },
    {
        match self.find(key) {
            Some(i) => {
                proof {
                    use_type_invariant(self);
                    self.lemma_view_at(i as int);
                }
                Some(&self.entries[i].1)
            },
            None => None,
        }
    }
    /// Stores `value` under `key`, replacing what was there.
    pub fn insert(&mut self, key: String, value: V)
        ensures
            final(self)@ == old(self)@.insert(key@, value@),
    {
        proof {
            use_type_invariant(&*self);
            lemma_sorted_no_duplicates(self.keys());
        }
        let ghost k = key@;
        let ghost w = value@;
        let ghost keys0 = self.keys();
        let ghost vals0 = self.vals();
        let ghost ents0 = self.entries@;
        match self.find(key.as_str()) {
            Some(i) => {
                let mut ents: Vec<(String, V)> = Vec::new();
                std::mem::swap(&mut ents, &mut self.entries);
                ents.set(i, (key, value));
                proof {
                    assert(ents@.map_values(|e: (String, V)| e.0@) =~= keys0);
                    assert(ents@.map_values(|e: (String, V)| e.1@) =~= vals0.update(i as int, w));
                    lemma_map_of_update(keys0, vals0, i as int, w);
                }
                self.entries = ents;
            },
            None => {
                let p = self.search(key.as_str());
                proof {
                    if p < keys0.len() {
                        lemma_seq_lt_total(keys0[p as int], k);
                    }
                    lemma_sorted_insert(keys0, p as int, k);
                    lemma_map_of_insert(keys0, vals0, p as int, k, w);
                }
                let mut ents: Vec<(String, V)> = Vec::new();
                std::mem::swap(&mut ents, &mut self.entries);
                ents.insert(p, (key, value));
                proof {
                    assert(ents@.map_values(|e: (String, V)| e.0@) =~= keys0.insert(p as int, k));
                    assert(ents@.map_values(|e: (String, V)| e.1@) =~= vals0.insert(p as int, w));
                }
                self.entries = ents;
            },
        }
    }

    /// Removes the entry under `key` and hands its value back.
    pub fn take(&mut self, key: &str) -> (r: Option<V>)
        ensures
            final(self)@ == old(self)@.remove(key@),
            match r {
                Some(v) => old(self)@.contains_key(key@) && old(self)@[key@] == v@,
                None => !old(self)@.contains_key(key@),
            },
    {
        proof {
            use_type_invariant(&*self);
            lemma_sorted_no_duplicates(self.keys());
        }
        let ghost keys0 = self.keys();
        let ghost vals0 = self.vals();
        match self.find(key) {
            Some(i) => {
                proof {
                    self.lemma_view_at(i as int);
                    lemma_sorted_remove(keys0, i as int);
                    lemma_map_of_remove(keys0, vals0, i as int);
                }
                let mut ents: Vec<(String, V)> = Vec::new();
                std::mem::swap(&mut ents, &mut self.entries);
                let (_k, v) = ents.remove(i);
                proof {
                    assert(ents@.map_values(|e: (String, V)| e.0@) =~= keys0.remove(i as int));
                    assert(ents@.map_values(|e: (String, V)| e.1@) =~= vals0.remove(i as int));
                }
                self.entries = ents;
                Some(v)
            },
            None => {
                assert(old(self)@.remove(key@) =~= old(self)@);
                None
            },
        }
    }
}

impl<V: Dup> StrMap<V> {
    /// Copies every entry of `other` into `self`; on a shared key `other` wins.
    pub fn extend_from(&mut self, other: &StrMap<V>)
        ensures
            final(self)@ == old(self)@.union_prefer_right(other@),
    {
        let n = other.len();
        let ghost ks = other.keys();
        let mut i: usize = 0;
        assert(old(self)@.union_prefer_right(other@.restrict(ks.take(0).to_set())) =~= old(
            self,
        )@);
        while i < n
            invariant
                n == ks.len(),
                ks == other.keys(),
                other@.dom() == ks.to_set(),
                i <= n,
                self@ == old(self)@.union_prefer_right(other@.restrict(ks.take(i as int).to_set())),
            decreases n - i,
        {
            let k = other.key_at(i);
            let v = other.value_at(i);
            let ghost before = self@;
            self.insert(k.dup(), v.dup());
            proof {
                assert(ks.take(i + 1).to_set() =~= ks.take(i as int).to_set().insert(ks[i as int]))
                    by {
                    assert(ks.take(i + 1) =~= ks.take(i as int).push(ks[i as int]));
                    ks.take(i as int).lemma_push_to_set_commute(ks[i as int]);
                }
                assert(self@ =~= old(self)@.union_prefer_right(
                    other@.restrict(ks.take(i + 1).to_set()),
                ));
            }
            i = i + 1;
        }
        proof {
            assert(ks.take(n as int) =~= ks);
            assert(other@.restrict(ks.to_set()) =~= other@);
        }
    }
}

impl<V: Dup> Clone for StrMap<V> {
    fn clone(&self) -> (r: Self)
        ensures
            r@ == self@,
    {
        let mut r = StrMap::new();
        r.extend_from(self);
        assert(r@ =~= self@);
        r
    }
}

impl<V: View> Default for StrMap<V> {
    fn default() -> (r: Self)
        ensures
            r@ == Map::<Seq<char>, V::V>::empty(),
    {
        StrMap::new()
    }
}

} // verus!
