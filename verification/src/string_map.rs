use vstd::prelude::*;

verus! {

/// A map keyed by strings, kept as a list of entries whose keys are pairwise distinct.
pub struct StringMap<T> {
    entries: Vec<(String, T)>,
}

impl<T> StringMap<T> {
    /// No key occurs twice among the entries.
    pub closed spec fn wf(&self) -> bool {
        forall|i: int, j: int|
            0 <= i < self.entries@.len() && 0 <= j < self.entries@.len() && i != j
                ==> #[trigger] self.entries@[i].0@ != #[trigger] self.entries@[j].0@
    }

    /// Some entry has the key `k`.
    pub closed spec fn has(&self, k: Seq<char>) -> bool {
        exists|i: int| 0 <= i < self.entries@.len() && #[trigger] self.entries@[i].0@ == k
    }

    /// The position of the entry with the key `k`.
    closed spec fn position_of(&self, k: Seq<char>) -> int {
        choose|i: int| 0 <= i < self.entries@.len() && #[trigger] self.entries@[i].0@ == k
    }

    /// The contents, as a map from key text to value.
    pub closed spec fn view(&self) -> Map<Seq<char>, T> {
        Map::new(|k: Seq<char>| self.has(k), |k: Seq<char>| self.entries@[self.position_of(k)].1)
    }

    proof fn lemma_position(&self, i: int)
        requires
            self.wf(),
            0 <= i < self.entries@.len(),
        ensures
            self.has(self.entries@[i].0@),
            self.position_of(self.entries@[i].0@) == i,
            self.view().contains_key(self.entries@[i].0@),
            self.view()[self.entries@[i].0@] == self.entries@[i].1,
    {
        let k = self.entries@[i].0@;
        assert(self.has(k));
        let p = self.position_of(k);
        assert(0 <= p < self.entries@.len() && self.entries@[p].0@ == k);
    }

    /// An empty map.
    pub fn new() -> (m: Self)
        ensures
            m.wf(),
            m.view() == Map::<Seq<char>, T>::empty(),
    {
        let m = StringMap { entries: Vec::new() };
        assert(m.view() =~= Map::<Seq<char>, T>::empty());
        m
    }

    /// The number of entries.
    pub fn len(&self) -> (n: usize)
        requires
            self.wf(),
        ensures
            n == self.view().dom().len(),
    {
        proof {
            self.lemma_dom_len();
        }
        self.entries.len()
    }

    proof fn lemma_dom_len(&self)
        requires
            self.wf(),
        ensures
            self.view().dom().finite(),
            self.view().dom().len() == self.entries@.len(),
        decreases self.entries@.len(),
    {
        let keys = self.entries@.map_values(|e: (String, T)| e.0@);
        assert forall|i: int, j: int| 0 <= i < keys.len() && 0 <= j < keys.len() && i != j implies keys[i]
            != keys[j] by {
            assert(self.entries@[i].0@ != self.entries@[j].0@);
        }
        assert(keys.no_duplicates());
        keys.unique_seq_to_set();
        assert forall|k: Seq<char>| self.view().dom().contains(k) <==> keys.to_set().contains(k) by {
            if self.view().dom().contains(k) {
                let i = self.position_of(k);
                assert(keys[i] == k);
            }
            if keys.to_set().contains(k) {
                let i = choose|i: int| 0 <= i < keys.len() && keys[i] == k;
                assert(self.entries@[i].0@ == k);
            }
        }
        assert(self.view().dom() =~= keys.to_set());
    }

    /// Where the entry with the key `key` stands, if there is one.
    fn position(&self, key: &String) -> (r: Option<usize>)
        requires
            self.wf(),
        ensures
            match r {
                Some(i) => i < self.entries@.len() && self.entries@[i as int].0@ == key@,
                None => !self.view().contains_key(key@),
            },
    {
        let mut i: usize = 0;
        while i < self.entries.len()
            invariant
                i <= self.entries@.len(),
                forall|j: int| 0 <= j < i ==> #[trigger] self.entries@[j].0@ != key@,
            decreases self.entries@.len() - i,
        {
            if self.entries[i].0 == *key {
                return Some(i);
            }
            i = i + 1;
        }
        None
    }

    /// Whether some entry has the key `key`.
    pub fn contains_key(&self, key: &String) -> (r: bool)
        requires
            self.wf(),
        ensures
            r == self.view().contains_key(key@),
    {
        match self.position(key) {
            Some(i) => {
                proof {
                    self.lemma_position(i as int);
                }
                true
            },
            None => false,
        }
    }

    /// The value stored under `key`.
    pub fn get(&self, key: &String) -> (r: Option<&T>)
        requires
            self.wf(),
        ensures
            match r {
                Some(v) => self.view().contains_key(key@) && *v == self.view()[key@],
                None => !self.view().contains_key(key@),
            },
    {
        match self.position(key) {
            Some(i) => {
                proof {
                    self.lemma_position(i as int);
                }
                Some(&self.entries[i].1)
            },
            None => None,
        }
    }

    /// Stores `value` under `key`, replacing what was stored there.
    pub fn insert(&mut self, key: String, value: T)
        requires
            old(self).wf(),
        ensures
            final(self).wf(),
            final(self).view() == old(self).view().insert(key@, value),
    {
        let ghost old_map = self.view();
        let ghost k = key@;
        match self.position(&key) {
            Some(i) => {
                proof {
                    self.lemma_position(i as int);
                }
                self.entries.set(i, (key, value));
                proof {
                    assert(self.entries@[i as int].0@ == k);
                    assert(self.has(k));
                    assert forall|k2: Seq<char>| #[trigger]
                        self.view().contains_key(k2) <==> old_map.insert(k, value).contains_key(
                            k2,
                        ) by {
                        if self.has(k2) {
                            let p = choose|p: int|
                                0 <= p < self.entries@.len() && #[trigger] self.entries@[p].0@
                                    == k2;
                            if p != i {
                                assert(old_map.contains_key(self.entries@[p].0@)) by {
                                    assert(old(self).entries@[p] == self.entries@[p]);
                                    old(self).lemma_position(p);
                                }
                            }
                        }
                        if old_map.contains_key(k2) && k2 != k {
                            let p = old(self).position_of(k2);
                            assert(self.entries@[p] == old(self).entries@[p]);
                        }
                    }
                    assert forall|k2: Seq<char>| #[trigger]
                        self.view().contains_key(k2) implies self.view()[k2] == old_map.insert(
                            k,
                            value,
                        )[k2] by {
                        let p = choose|p: int|
                            0 <= p < self.entries@.len() && #[trigger] self.entries@[p].0@ == k2;
                        self.lemma_position(p);
                        if p != i {
                            assert(old(self).entries@[p] == self.entries@[p]);
                            old(self).lemma_position(p);
                        }
                    }
                    assert(self.view() =~= old_map.insert(k, value));
                }
            },
            None => {
                self.entries.push((key, value));
                proof {
                    let n = old(self).entries@.len();
                    assert forall|i: int, j: int|
                        0 <= i < self.entries@.len() && 0 <= j < self.entries@.len() && i != j
                            implies #[trigger] self.entries@[i].0@
                        != #[trigger] self.entries@[j].0@ by {
                        if i < n && j < n {
                            assert(old(self).entries@[i] == self.entries@[i]);
                            assert(old(self).entries@[j] == self.entries@[j]);
                        } else if i < n {
                            assert(old(self).entries@[i] == self.entries@[i]);
                            old(self).lemma_position(i);
                        } else {
                            assert(old(self).entries@[j] == self.entries@[j]);
                            old(self).lemma_position(j);
                        }
                    }
                    assert forall|k2: Seq<char>| #[trigger]
                        self.view().contains_key(k2) <==> old_map.insert(k, value).contains_key(
                            k2,
                        ) by {
                        if self.has(k2) {
                            let p = choose|p: int|
                                0 <= p < self.entries@.len() && #[trigger] self.entries@[p].0@
                                    == k2;
                            if p < n {
                                assert(old(self).entries@[p] == self.entries@[p]);
                                old(self).lemma_position(p);
                            }
                        }
                        if old_map.contains_key(k2) {
                            let p = old(self).position_of(k2);
                            assert(self.entries@[p] == old(self).entries@[p]);
                        }
                        if k2 == k {
                            assert(self.entries@[n as int].0@ == k);
                        }
                    }
                    assert forall|k2: Seq<char>| #[trigger]
                        self.view().contains_key(k2) implies self.view()[k2] == old_map.insert(
                            k,
                            value,
                        )[k2] by {
                        let p = choose|p: int|
                            0 <= p < self.entries@.len() && #[trigger] self.entries@[p].0@ == k2;
                        self.lemma_position(p);
                        if p < n {
                            assert(old(self).entries@[p] == self.entries@[p]);
                            old(self).lemma_position(p);
                        }
                    }
                    assert(self.view() =~= old_map.insert(k, value));
                }
            },
        }
    }

    /// Takes out the value stored under `key`, if there is one.
    pub fn remove(&mut self, key: &String) -> (r: Option<T>)
        requires
            old(self).wf(),
        ensures
            final(self).wf(),
            final(self).view() == old(self).view().remove(key@),
            match r {
                Some(v) => old(self).view().contains_key(key@) && v == old(self).view()[key@],
                None => !old(self).view().contains_key(key@),
            },
    {
        let ghost old_map = self.view();
        let ghost k = key@;
        match self.position(key) {
            Some(i) => {
                proof {
                    self.lemma_position(i as int);
                }
                let (_, v) = self.entries.remove(i);
                proof {
                    let n = old(self).entries@.len();
                    assert forall|a: int| 0 <= a < self.entries@.len() implies #[trigger] self.entries@[a]
                        == old(self).entries@[if a < i {
                        a
                    } else {
                        a + 1
                    }] by {}
                    assert forall|a: int, b: int|
                        0 <= a < self.entries@.len() && 0 <= b < self.entries@.len() && a != b
                            implies #[trigger] self.entries@[a].0@
                        != #[trigger] self.entries@[b].0@ by {
                        let a2 = if a < i {
                            a
                        } else {
                            a + 1
                        };
                        let b2 = if b < i {
                            b
                        } else {
                            b + 1
                        };
                        assert(old(self).entries@[a2].0@ != old(self).entries@[b2].0@);
                    }
                    assert forall|k2: Seq<char>| #[trigger]
                        self.view().contains_key(k2) <==> old_map.remove(k).contains_key(k2) by {
                        if self.has(k2) {
                            let p = choose|p: int|
                                0 <= p < self.entries@.len() && #[trigger] self.entries@[p].0@
                                    == k2;
                            let p2 = if p < i {
                                p
                            } else {
                                p + 1
                            };
                            assert(old(self).entries@[p2] == self.entries@[p]);
                            old(self).lemma_position(p2);
                        }
                        if old_map.contains_key(k2) && k2 != k {
                            let p = old(self).position_of(k2);
                            assert(p != i);
                            let p1 = if p < i {
                                p
                            } else {
                                p - 1
                            };
                            assert(self.entries@[p1] == old(self).entries@[p]);
                        }
                    }
                    assert forall|k2: Seq<char>| #[trigger]
                        self.view().contains_key(k2) implies self.view()[k2] == old_map.remove(
                            k,
                        )[k2] by {
                        let p = choose|p: int|
                            0 <= p < self.entries@.len() && #[trigger] self.entries@[p].0@ == k2;
                        self.lemma_position(p);
                        let p2 = if p < i {
                            p
                        } else {
                            p + 1
                        };
                        assert(old(self).entries@[p2] == self.entries@[p]);
                        old(self).lemma_position(p2);
                    }
                    assert(self.view() =~= old_map.remove(k));
                }
                Some(v)
            },
            None => {
                assert(self.view() =~= old_map.remove(k));
                None
            },
        }
    }

    /// The keys, each once, in the order of the entries.
    pub fn keys(&self) -> (r: Vec<String>)
        requires
            self.wf(),
        ensures
            r@.len() == self.view().dom().len(),
            forall|i: int, j: int|
                0 <= i < r@.len() && 0 <= j < r@.len() && i != j ==> #[trigger] r@[i]@
                    != #[trigger] r@[j]@,
            forall|k: Seq<char>|
                self.view().contains_key(k) <==> exists|i: int| 0 <= i < r@.len() && #[trigger] r@[i]@ == k,
    {
        proof {
            self.lemma_dom_len();
        }
        let mut r: Vec<String> = Vec::new();
        let mut i: usize = 0;
        while i < self.entries.len()
            invariant
                self.wf(),
                i <= self.entries@.len(),
                r@.len() == i,
                forall|j: int| 0 <= j < i ==> #[trigger] r@[j]@ == self.entries@[j].0@,
            decreases self.entries@.len() - i,
        {
            r.push(self.entries[i].0.clone());
            i = i + 1;
        }
        assert forall|a: int, b: int|
            0 <= a < r@.len() && 0 <= b < r@.len() && a != b implies #[trigger] r@[a]@
            != #[trigger] r@[b]@ by {
            assert(self.entries@[a].0@ != self.entries@[b].0@);
        }
        assert forall|k: Seq<char>|
            self.view().contains_key(k) <==> exists|i: int| 0 <= i < r@.len() && #[trigger] r@[i]@ == k by {
            if self.view().contains_key(k) {
                let p = self.position_of(k);
                assert(r@[p]@ == k);
            }
            if exists|i: int| 0 <= i < r@.len() && #[trigger] r@[i]@ == k {
                let p = choose|i: int| 0 <= i < r@.len() && #[trigger] r@[i]@ == k;
                self.lemma_position(p);
            }
        }
        r
    }
}

} // verus!
