use vstd::prelude::*;

verus! {

/// A map from string keys to values, kept as a list of entries with distinct keys.
pub struct KeyedMap<V> {
    entries: Vec<(String, V)>,
}

impl<V> KeyedMap<V> {
    /// No two entries share a key.
    pub closed spec fn wf(&self) -> bool {
        forall|i: int, j: int|
            0 <= i < self.entries@.len() && 0 <= j < self.entries@.len() && i != j
                ==> #[trigger] self.entries@[i].0@ != #[trigger] self.entries@[j].0@
    }

    closed spec fn has_at(&self, k: Seq<char>, i: int) -> bool {
        0 <= i < self.entries@.len() && self.entries@[i].0@ == k
    }

    /// The entries as a map from the characters of each key to its value.
    pub closed spec fn view(&self) -> Map<Seq<char>, V> {
        Map::new(
            |k: Seq<char>| exists|i: int| #[trigger] self.has_at(k, i),
            |k: Seq<char>| self.entries@[choose|i: int| #[trigger] self.has_at(k, i)].1,
        )
    }

    proof fn lemma_at(&self, k: Seq<char>, i: int)
        requires
            self.wf(),
            self.has_at(k, i),
        ensures
            self.view().contains_key(k),
            self.view()[k] == self.entries@[i].1,
    {
        let j = choose|j: int| #[trigger] self.has_at(k, j);
        assert(j == i);
    }

    /// An empty map.
    pub fn new() -> (r: Self)
        ensures
            r.wf(),
            r.view() == Map::<Seq<char>, V>::empty(),
    {
        let r = KeyedMap { entries: Vec::new() };
        assert(r.view() =~= Map::<Seq<char>, V>::empty());
        r
    }

    fn find(&self, k: &String) -> (r: Option<usize>)
        requires
            self.wf(),
        ensures
            match r {
                Some(i) => self.has_at(k@, i as int),
                None => !self.view().contains_key(k@),
            },
    {
        let mut i: usize = 0;
        while i < self.entries.len()
            invariant
                i <= self.entries@.len(),
                forall|j: int| 0 <= j < i ==> !#[trigger] self.has_at(k@, j),
            decreases self.entries.len() - i,
        {
            if self.entries[i].0 == *k {
                return Some(i);
            }
            i = i + 1;
        }
        None
    }

    /// Whether a key is present.
    pub fn contains_key(&self, k: &String) -> (r: bool)
        requires
            self.wf(),
        ensures
            r == self.view().contains_key(k@),
    {
        match self.find(k) {
            Some(i) => {
                proof { self.lemma_at(k@, i as int); }
                true
            },
            None => false,
        }
    }

    /// The value under a key, if any.
    pub fn get(&self, k: &String) -> (r: Option<&V>)
        requires
            self.wf(),
        ensures
            r.is_some() == self.view().contains_key(k@),
            r.is_some() ==> *r.unwrap() == self.view()[k@],
    {
        match self.find(k) {
            Some(i) => {
                proof { self.lemma_at(k@, i as int); }
                Some(&self.entries[i].1)
            },
            None => None,
        }
    }

    /// Takes out the entry under a key and returns its value.
    pub fn remove(&mut self, k: &String) -> (r: Option<V>)
        requires
            old(self).wf(),
        ensures
            final(self).wf(),
            final(self).view() == old(self).view().remove(k@),
            r.is_some() == old(self).view().contains_key(k@),
            r.is_some() ==> r.unwrap() == old(self).view()[k@],
    {
        match self.find(k) {
            Some(i) => {
                proof { self.lemma_at(k@, i as int); }
                let ghost pre = *self;
                let e = self.entries.remove(i);
                proof {
                    assert forall|a: int, b: int|
                        0 <= a < self.entries@.len() && 0 <= b < self.entries@.len() && a != b
                            implies #[trigger] self.entries@[a].0@ != #[trigger] self.entries@[b].0@ by {
                        let a2 = if a < i { a } else { a + 1 };
                        let b2 = if b < i { b } else { b + 1 };
                        assert(self.entries@[a] == pre.entries@[a2]);
                        assert(self.entries@[b] == pre.entries@[b2]);
                    }
                    assert forall|q: Seq<char>| #[trigger] self.view().contains_key(q)
                        <==> pre.view().remove(k@).contains_key(q) by {
                        if self.view().contains_key(q) {
                            let a = choose|a: int| #[trigger] self.has_at(q, a);
                            let a2 = if a < i { a } else { a + 1 };
                            assert(pre.has_at(q, a2));
                        }
                        if pre.view().remove(k@).contains_key(q) {
                            let a = choose|a: int| #[trigger] pre.has_at(q, a);
                            assert(a != i);
                            let a2 = if a < i { a } else { a - 1 };
                            assert(self.has_at(q, a2));
                        }
                    }
                    assert forall|q: Seq<char>| #[trigger] self.view().contains_key(q)
                        implies self.view()[q] == pre.view().remove(k@)[q] by {
                        let a = choose|a: int| #[trigger] self.has_at(q, a);
                        let a2 = if a < i { a } else { a + 1 };
                        assert(pre.has_at(q, a2));
                        self.lemma_at(q, a);
                        pre.lemma_at(q, a2);
                    }
                    assert(self.view() =~= pre.view().remove(k@));
                }
                Some(e.1)
            },
            None => {
                assert(self.view() =~= old(self).view().remove(k@));
                None
            },
        }
    }

    /// Puts a value under a key, in place of any value it had.
    pub fn insert(&mut self, k: String, v: V)
        requires
            old(self).wf(),
        ensures
            final(self).wf(),
            final(self).view() == old(self).view().insert(k@, v),
    {
        let _ = self.remove(&k);
        let ghost mid = *self;
        let ghost kv = k@;
        self.entries.push((k, v));
        proof {
            let n = mid.entries@.len() as int;
            assert(self.has_at(kv, n));
            assert(!mid.view().contains_key(kv));
            assert forall|a: int, b: int|
                0 <= a < self.entries@.len() && 0 <= b < self.entries@.len() && a != b
                    implies #[trigger] self.entries@[a].0@ != #[trigger] self.entries@[b].0@ by {
                if a < n && b < n {
                    assert(self.entries@[a] == mid.entries@[a]);
                    assert(self.entries@[b] == mid.entries@[b]);
                } else if a < n {
                    assert(self.entries@[a] == mid.entries@[a]);
                    assert(mid.has_at(self.entries@[a].0@, a));
                    assert(mid.view().contains_key(self.entries@[a].0@));
                    assert(b == n);
                    assert(self.entries@[b].0@ == kv);
                } else {
                    assert(self.entries@[b] == mid.entries@[b]);
                    assert(mid.has_at(self.entries@[b].0@, b));
                    assert(mid.view().contains_key(self.entries@[b].0@));
                    assert(self.entries@[a].0@ == kv);
                }
            }
            assert forall|q: Seq<char>| #[trigger] self.view().contains_key(q)
                <==> mid.view().insert(kv, v).contains_key(q) by {
                if self.view().contains_key(q) && q != kv {
                    let a = choose|a: int| #[trigger] self.has_at(q, a);
                    assert(a < n);
                    assert(mid.has_at(q, a));
                }
                if mid.view().contains_key(q) {
                    let a = choose|a: int| #[trigger] mid.has_at(q, a);
                    assert(self.has_at(q, a));
                }
            }
            assert forall|q: Seq<char>| #[trigger] self.view().contains_key(q)
                implies self.view()[q] == mid.view().insert(kv, v)[q] by {
                let a = choose|a: int| #[trigger] self.has_at(q, a);
                self.lemma_at(q, a);
                if q != kv {
                    assert(a < n);
                    assert(mid.has_at(q, a));
                    mid.lemma_at(q, a);
                } else {
                    self.lemma_at(q, n);
                }
            }
            assert(self.view() =~= mid.view().insert(kv, v));
        }
    }

    /// The number of entries.
    pub fn len(&self) -> (r: usize)
        requires
            self.wf(),
        ensures
            r == self.view().len(),
    {
        proof { self.lemma_len(); }
        self.entries.len()
    }

    /// Whether there are no entries.
    pub fn is_empty(&self) -> (r: bool)
        requires
            self.wf(),
        ensures
            r == (self.view().len() == 0),
    {
        proof { self.lemma_len(); }
        self.entries.len() == 0
    }

    /// The entries, in the order in which their keys first came.
    pub fn entries(&self) -> (r: &Vec<(String, V)>)
        requires
            self.wf(),
        ensures
            r@.len() == self.view().len(),
            forall|i: int| 0 <= i < r@.len() ==> self.view().contains_key(#[trigger] r@[i].0@)
                && self.view()[r@[i].0@] == r@[i].1,
            forall|k: Seq<char>| #[trigger] self.view().contains_key(k)
                ==> exists|i: int| 0 <= i < r@.len() && r@[i].0@ == k,
    {
        proof {
            self.lemma_len();
            assert forall|i: int| 0 <= i < self.entries@.len() implies self.view().contains_key(#[trigger] self.entries@[i].0@)
                && self.view()[self.entries@[i].0@] == self.entries@[i].1 by {
                self.lemma_at(self.entries@[i].0@, i);
            }
            assert forall|k: Seq<char>| #[trigger] self.view().contains_key(k)
                implies exists|i: int| 0 <= i < self.entries@.len() && self.entries@[i].0@ == k by {
                let i = choose|i: int| #[trigger] self.has_at(k, i);
                assert(self.entries@[i].0@ == k);
            }
        }
        &self.entries
    }

    proof fn lemma_len(&self)
        requires
            self.wf(),
        ensures
            self.view().dom().finite(),
            self.view().len() == self.entries@.len(),
        decreases self.entries@.len(),
    {
        let keys = self.entries@.map_values(|e: (String, V)| e.0@);
        assert(self.view().dom() =~= keys.to_set()) by {
            assert forall|k: Seq<char>| self.view().dom().contains(k) implies keys.to_set().contains(k) by {
                let i = choose|i: int| #[trigger] self.has_at(k, i);
                assert(keys[i] == k);
            }
            assert forall|k: Seq<char>| keys.to_set().contains(k) implies self.view().dom().contains(k) by {
                let i = choose|i: int| 0 <= i < keys.len() && keys[i] == k;
                assert(self.has_at(k, i));
            }
        }
        assert(keys.no_duplicates()) by {
            assert forall|i: int, j: int| 0 <= i < keys.len() && 0 <= j < keys.len() && i != j implies keys[i] != keys[j] by {
                assert(self.entries@[i].0@ != self.entries@[j].0@);
            }
        }
        keys.unique_seq_to_set();
    }
}

} // verus!
