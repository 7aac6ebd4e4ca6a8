//! A small keyed table: rows with distinct string keys, seen as a map from
//! key to row.

use vstd::prelude::*;
use crate::order::str_eq;

verus! {

/// A row with a string key.
pub trait Keyed: Sized {
    spec fn key(&self) -> Seq<char>;

    fn key_str(&self) -> (r: &str)
        ensures
            r@ == self.key(),
    ;
}

pub open spec fn has_key<T: Keyed>(s: Seq<T>, k: Seq<char>) -> bool {
    exists|i: int| 0 <= i < s.len() && (#[trigger] s[i]).key() == k
}

pub open spec fn unique_keys<T: Keyed>(s: Seq<T>) -> bool {
    forall|a: int, b: int| 0 <= a < b < s.len() ==> (#[trigger] s[a]).key() != (#[trigger] s[b]).key()
}

/// Rows kept in insertion order, one per key.
pub struct Table<T> {
    rows: Vec<T>,
}

impl<T: Keyed> View for Table<T> {
    type V = Map<Seq<char>, T>;

    closed spec fn view(&self) -> Map<Seq<char>, T> {
        Map::new(
            |k: Seq<char>| has_key(self.rows@, k),
            |k: Seq<char>| self.rows@[choose|i: int| 0 <= i < self.rows@.len() && (#[trigger] self.rows@[i]).key() == k],
        )
    }
}

impl<T: Keyed> Table<T> {
    pub closed spec fn wf(&self) -> bool {
        unique_keys(self.rows@)
    }

    /// The rows in storage order.
    pub closed spec fn rows(&self) -> Seq<T> {
        self.rows@
    }

    /// The rows are exactly the map's entries, each once.
    pub proof fn lemma_rows(&self)
        requires
            self.wf(),
        ensures
            unique_keys(self.rows()),
            forall|i: int|
                0 <= i < self.rows().len() ==> self@.contains_key(#[trigger] self.rows()[i].key())
                    && self@[self.rows()[i].key()] == self.rows()[i],
            forall|k: Seq<char>| #[trigger] self@.contains_key(k) ==> has_key(self.rows(), k),
            forall|k: Seq<char>| #[trigger] self@.contains_key(k) ==> self@[k].key() == k,
            self@.dom().finite(),
    {
        assert forall|k: Seq<char>| #[trigger] self@.contains_key(k) implies self@[k].key() == k by {
            let j = choose|j: int| 0 <= j < self.rows@.len() && (#[trigger] self.rows@[j]).key() == k;
        }
        assert forall|i: int| 0 <= i < self.rows().len() implies self@.contains_key(
            #[trigger] self.rows()[i].key(),
        ) && self@[self.rows()[i].key()] == self.rows()[i] by {
            let k = self.rows()[i].key();
            assert(has_key(self.rows@, k));
            let j = choose|j: int| 0 <= j < self.rows@.len() && (#[trigger] self.rows@[j]).key() == k;
            if j != i {
                if j < i {
                    assert(self.rows@[j].key() != self.rows@[i].key());
                } else {
                    assert(self.rows@[i].key() != self.rows@[j].key());
                }
            }
        }
        self.lemma_finite();
    }

    proof fn lemma_finite(&self)
        ensures
            self@.dom().finite(),
    {
        let keys = self.rows@.map_values(|t: T| t.key());
        assert(self@.dom() =~= keys.to_set()) by {
            assert forall|k: Seq<char>| self@.dom().contains(k) implies keys.to_set().contains(k) by {
                let i = choose|i: int| 0 <= i < self.rows@.len() && (#[trigger] self.rows@[i]).key() == k;
                assert(keys[i] == k);
            }
            assert forall|k: Seq<char>| keys.to_set().contains(k) implies self@.dom().contains(k) by {
                let i = choose|i: int| 0 <= i < keys.len() && keys[i] == k;
                assert(self.rows@[i].key() == k);
            }
        }
        vstd::seq_lib::seq_to_set_is_finite(keys);
    }

    pub fn new() -> (t: Self)
        ensures
            t.wf(),
            t@ == Map::<Seq<char>, T>::empty(),
            t.rows() == Seq::<T>::empty(),
    {
        let t = Table { rows: Vec::new() };
        assert(t@ =~= Map::<Seq<char>, T>::empty());
        t
    }

    pub fn len(&self) -> (n: usize)
        ensures
            n == self.rows().len(),
    {
        self.rows.len()
    }

    pub fn at(&self, i: usize) -> (r: &T)
        requires
            i < self.rows().len(),
        ensures
            *r == self.rows()[i as int],
    {
        &self.rows[i]
    }

    fn position(&self, k: &str) -> (r: Option<usize>)
        requires
            self.wf(),
        ensures
            match r {
                Some(i) => i < self.rows@.len() && self.rows@[i as int].key() == k@,
                None => !has_key(self.rows@, k@),
            },
    {
        let mut i: usize = 0;
        while i < self.rows.len()
            invariant
                i <= self.rows@.len(),
                forall|j: int| 0 <= j < i ==> (#[trigger] self.rows@[j]).key() != k@,
            decreases self.rows@.len() - i,
        {
            if str_eq(self.rows[i].key_str(), k) {
                return Some(i);
            }
            i = i + 1;
        }
        None
    }

    pub fn contains(&self, k: &str) -> (r: bool)
        requires
            self.wf(),
        ensures
            r == self@.contains_key(k@),
    {
        self.position(k).is_some()
    }

    pub fn get(&self, k: &str) -> (r: Option<&T>)
        requires
            self.wf(),
        ensures
            match r {
                Some(t) => self@.contains_key(k@) && *t == self@[k@],
                None => !self@.contains_key(k@),
            },
    {
        match self.position(k) {
            Some(i) => {
                proof {
                    self.lemma_rows();
                    assert(self.rows()[i as int].key() == k@);
                }
                Some(&self.rows[i])
            },
            None => None,
        }
    }

    /// Stores `x` under its key, replacing the row with that key.
    pub fn upsert(&mut self, x: T)
        requires
            old(self).wf(),
        ensures
            final(self).wf(),
            final(self)@ == old(self)@.insert(x.key(), x),
    {
        let ghost s = self.rows@;
        let ghost k = x.key();
        let ghost old_map = self@;
        proof {
            self.lemma_rows();
        }
        match self.position(x.key_str()) {
            Some(i) => {
                self.rows.set(i, x);
                proof {
                    assert(self.rows@ == s.update(i as int, x));
                    assert forall|a: int, b: int| 0 <= a < b < self.rows@.len() implies (
                    #[trigger] self.rows@[a]).key() != (#[trigger] self.rows@[b]).key() by {
                        if a != i && b != i {
                            assert(self.rows@[a] == s[a] && self.rows@[b] == s[b]);
                        } else if a == i {
                            assert(self.rows@[b] == s[b]);
                            assert(s[a].key() != s[b].key());
                        } else {
                            assert(self.rows@[a] == s[a]);
                            assert(s[a].key() != s[b].key());
                        }
                    }
                    self.lemma_rows();
                    assert forall|q: Seq<char>| self@.contains_key(q) <==> old_map.insert(k, x).contains_key(q) by {
                        if self@.contains_key(q) {
                            let j = choose|j: int| 0 <= j < self.rows@.len() && (#[trigger] self.rows@[j]).key() == q;
                            if j != i {
                                assert(s[j].key() == q);
                                assert(has_key(s, q));
                            }
                        }
                        if old_map.contains_key(q) && q != k {
                            let j = choose|j: int| 0 <= j < s.len() && (#[trigger] s[j]).key() == q;
                            assert(self.rows@[j] == s[j]);
                            assert(has_key(self.rows@, q));
                        }
                        if q == k {
                            assert(self.rows@[i as int].key() == q);
                            assert(has_key(self.rows@, q));
                        }
                    }
                    assert forall|q: Seq<char>| #[trigger] self@.contains_key(q) implies self@[q] == old_map.insert(k, x)[q] by {
                        let j = choose|j: int| 0 <= j < self.rows@.len() && (#[trigger] self.rows@[j]).key() == q;
                        assert(self@[self.rows()[j].key()] == self.rows()[j]);
                        if j != i {
                            assert(self.rows@[j] == s[j]);
                            assert(old_map[s[j].key()] == s[j]);
                        }
                    }
                    assert(self@ =~= old_map.insert(k, x));
                }
            },
            None => {
                self.rows.push(x);
                proof {
                    assert(self.rows@ == s.push(x));
                    assert forall|a: int, b: int| 0 <= a < b < self.rows@.len() implies (
                    #[trigger] self.rows@[a]).key() != (#[trigger] self.rows@[b]).key() by {
                        assert(self.rows@[a] == s[a]);
                        if b < s.len() {
                            assert(self.rows@[b] == s[b]);
                        } else {
                            assert(has_key(s, s[a].key()));
                        }
                    }
                    self.lemma_rows();
                    assert forall|q: Seq<char>| self@.contains_key(q) <==> old_map.insert(k, x).contains_key(q) by {
                        if self@.contains_key(q) {
                            let j = choose|j: int| 0 <= j < self.rows@.len() && (#[trigger] self.rows@[j]).key() == q;
                            if j < s.len() {
                                assert(s[j] == self.rows@[j]);
                                assert(has_key(s, q));
                            }
                        }
                        if old_map.contains_key(q) {
                            let j = choose|j: int| 0 <= j < s.len() && (#[trigger] s[j]).key() == q;
                            assert(self.rows@[j] == s[j]);
                            assert(has_key(self.rows@, q));
                        }
                        if q == k {
                            assert(self.rows@[s.len() as int].key() == q);
                            assert(has_key(self.rows@, q));
                        }
                    }
                    assert forall|q: Seq<char>| #[trigger] self@.contains_key(q) implies self@[q] == old_map.insert(k, x)[q] by {
                        let j = choose|j: int| 0 <= j < self.rows@.len() && (#[trigger] self.rows@[j]).key() == q;
                        assert(self@[self.rows()[j].key()] == self.rows()[j]);
                        if j < s.len() {
                            assert(self.rows@[j] == s[j]);
                            assert(old_map[s[j].key()] == s[j]);
                        }
                    }
                    assert(self@ =~= old_map.insert(k, x));
                }
            },
        }
    }

    /// Takes the row with key `k` out, if there is one.
    pub fn remove(&mut self, k: &str) -> (r: Option<T>)
        requires
            old(self).wf(),
        ensures
            final(self).wf(),
            final(self)@ == old(self)@.remove(k@),
            match r {
                Some(t) => old(self)@.contains_key(k@) && t == old(self)@[k@],
                None => !old(self)@.contains_key(k@),
            },
    {
        let ghost s = self.rows@;
        let ghost old_map = self@;
        proof {
            self.lemma_rows();
        }
        match self.position(k) {
            None => {
                assert(self@ =~= old_map.remove(k@));
                None
            },
            Some(i) => {
                let t = self.rows.remove(i);
                proof {
                    assert(old_map[s[i as int].key()] == s[i as int]);
                    assert(self.rows@ == s.remove(i as int));
                    assert forall|a: int, b: int| 0 <= a < b < self.rows@.len() implies (
                    #[trigger] self.rows@[a]).key() != (#[trigger] self.rows@[b]).key() by {
                        let a0 = if a < i { a } else { a + 1 };
                        let b0 = if b < i { b } else { b + 1 };
                        assert(self.rows@[a] == s[a0] && self.rows@[b] == s[b0]);
                        assert(s[a0].key() != s[b0].key());
                    }
                    self.lemma_rows();
                    assert forall|q: Seq<char>| self@.contains_key(q) <==> old_map.remove(k@).contains_key(q) by {
                        if self@.contains_key(q) {
                            let j = choose|j: int| 0 <= j < self.rows@.len() && (#[trigger] self.rows@[j]).key() == q;
                            let j0 = if j < i { j } else { j + 1 };
                            assert(self.rows@[j] == s[j0]);
                            assert(has_key(s, q));
                            assert(s[j0].key() != s[i as int].key());
                        }
                        if old_map.contains_key(q) && q != k@ {
                            let j = choose|j: int| 0 <= j < s.len() && (#[trigger] s[j]).key() == q;
                            assert(j != i);
                            let j1 = if j < i { j } else { j - 1 };
                            assert(self.rows@[j1] == s[j]);
                            assert(has_key(self.rows@, q));
                        }
                    }
                    assert forall|q: Seq<char>| #[trigger] self@.contains_key(q) implies self@[q] == old_map.remove(k@)[q] by {
                        let j = choose|j: int| 0 <= j < self.rows@.len() && (#[trigger] self.rows@[j]).key() == q;
                        assert(self@[self.rows()[j].key()] == self.rows()[j]);
                        let j0 = if j < i { j } else { j + 1 };
                        assert(self.rows@[j] == s[j0]);
                        assert(old_map[s[j0].key()] == s[j0]);
                    }
                    assert(self@ =~= old_map.remove(k@));
                }
                Some(t)
            },
        }
    }
}

} // verus!
