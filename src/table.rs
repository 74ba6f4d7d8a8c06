//! A small map from names to values, kept as a vector of entries with
//! distinct keys. Entries stay in the order they were put in.
use vstd::prelude::*;

verus! {

/// A map from names to values.
pub struct KeyedTable<V> {
    entries: Vec<(String, V)>,
}

impl<V> View for KeyedTable<V> {
    type V = Map<Seq<char>, V>;

    closed spec fn view(&self) -> Map<Seq<char>, V> {
        Map::new(
            |k: Seq<char>| exists|i: int| self.key_at(i, k),
            |k: Seq<char>| self.entries@[choose|i: int| self.key_at(i, k)].1,
        )
    }
}

impl<V> KeyedTable<V> {
    /// Entry `i` exists and has key `k`.
    pub closed spec fn key_at(&self, i: int, k: Seq<char>) -> bool {
        0 <= i < self.entries@.len() && self.entries@[i].0@ == k
    }

    /// No two entries share a key.
    pub closed spec fn wf(&self) -> bool {
        forall|i: int, j: int|
            0 <= i < self.entries@.len() && 0 <= j < self.entries@.len() && i != j
                ==> self.entries@[i].0@ != self.entries@[j].0@
    }

    /// The entries, in the order they were put in.
    pub closed spec fn entry_seq(&self) -> Seq<(String, V)> {
        self.entries@
    }

    proof fn lemma_entry(&self, i: int)
        requires
            self.wf(),
            0 <= i < self.entries@.len(),
        ensures
            self@.contains_key(self.entries@[i].0@),
            self@[self.entries@[i].0@] == self.entries@[i].1,
    {
        let k = self.entries@[i].0@;
        assert(self.key_at(i, k));
        let j = choose|j: int| self.key_at(j, k);
        assert(i == j);
    }

    /// An empty table.
    pub fn new() -> (r: Self)
        ensures
            r.wf(),
            r@ == Map::<Seq<char>, V>::empty(),
    {
        let r = KeyedTable { entries: Vec::new() };
        proof {
            assert(r@ =~= Map::<Seq<char>, V>::empty());
        }
        r
    }

    /// The number of keys.
    pub fn len(&self) -> (n: usize)
        requires
            self.wf(),
        ensures
            n == self@.len(),
            n == self.entry_seq().len(),
    {
        proof {
            self.lemma_dom_size();
        }
        self.entries.len()
    }

    proof fn lemma_dom_size(&self)
        requires
            self.wf(),
        ensures
            self@.dom().len() == self.entries@.len(),
            self@.dom() == self.entries@.map_values(|e: (String, V)| e.0@).to_set(),
    {
        let ks = self.entries@.map_values(|e: (String, V)| e.0@);
        assert forall|k: Seq<char>| self@.dom().contains(k) <==> ks.to_set().contains(k) by {
            if self@.dom().contains(k) {
                let i = choose|i: int| self.key_at(i, k);
                assert(ks[i] == k);
            }
            if ks.to_set().contains(k) {
                let i = choose|i: int| 0 <= i < ks.len() && ks[i] == k;
                assert(self.key_at(i, k));
            }
        }
        assert(self@.dom() =~= ks.to_set());
        assert(ks.no_duplicates());
        ks.unique_seq_to_set();
    }

    /// The position of `key`, if the table holds it.
    fn position(&self, key: &String) -> (r: Option<usize>)
        ensures
            match r {
                Some(i) => self.key_at(i as int, key@),
                None => !self@.contains_key(key@),
            },
    {
        let mut i: usize = 0;
        while i < self.entries.len()
            invariant
                forall|j: int| 0 <= j < i ==> !self.key_at(j, key@),
            decreases self.entries.len() - i,
        {
            if self.entries[i].0 == *key {
                return Some(i);
            }
            i = i + 1;
        }
        None
    }

    /// The value under `key`, if any.
    pub fn get(&self, key: &String) -> (r: Option<&V>)
        requires
            self.wf(),
        ensures
            match r {
                Some(v) => self@.contains_key(key@) && self@[key@] == *v,
                None => !self@.contains_key(key@),
            },
    {
        match self.position(key) {
            Some(i) => {
                proof {
                    self.lemma_entry(i as int);
                }
                Some(&self.entries[i].1)
            },
            None => None,
        }
    }

    /// Removes `key` and hands back its value, if the table held it.
    pub fn take(&mut self, key: &String) -> (r: Option<V>)
        requires
            old(self).wf(),
        ensures
            final(self).wf(),
            match r {
                Some(v) => old(self)@.contains_key(key@) && old(self)@[key@] == v,
                None => !old(self)@.contains_key(key@),
            },
            final(self)@ == old(self)@.remove(key@),
    {
        match self.position(key) {
            Some(i) => {
                proof {
                    self.lemma_entry(i as int);
                }
                let ghost before = *self;
                let e = self.entries.remove(i);
                proof {
                    assert(self.wf()) by {
                        assert forall|a: int, b: int|
                            0 <= a < self.entries@.len() && 0 <= b < self.entries@.len() && a
                                != b implies self.entries@[a].0@ != self.entries@[b].0@ by {
                            let a0 = if a < i { a } else { a + 1 };
                            let b0 = if b < i { b } else { b + 1 };
                            assert(self.entries@[a] == before.entries@[a0]);
                            assert(self.entries@[b] == before.entries@[b0]);
                        }
                    }
                    assert forall|k: Seq<char>|
                        #![trigger self@.contains_key(k)]
                        self@.contains_key(k) <==> before@.remove(key@).contains_key(k) by {
                        if self@.contains_key(k) {
                            let a = choose|a: int| self.key_at(a, k);
                            let a0 = if a < i { a } else { a + 1 };
                            assert(before.key_at(a0, k));
                        }
                        if before@.remove(key@).contains_key(k) {
                            let a0 = choose|a0: int| before.key_at(a0, k);
                            assert(a0 != i);
                            let a = if a0 < i { a0 } else { a0 - 1 };
                            assert(self.key_at(a, k));
                        }
                    }
                    assert forall|k: Seq<char>| #[trigger]
                        self@.contains_key(k) implies self@[k] == before@[k] by {
                        let a = choose|a: int| self.key_at(a, k);
                        let a0 = if a < i { a } else { a + 1 };
                        self.lemma_entry(a);
                        before.lemma_entry(a0);
                    }
                    assert(self@ =~= before@.remove(key@));
                }
                Some(e.1)
            },
            None => {
                proof {
                    assert(self@ =~= old(self)@.remove(key@));
                }
                None
            },
        }
    }

    /// Puts `value` under `key`, which the table does not yet hold.
    pub fn put(&mut self, key: String, value: V)
        requires
            old(self).wf(),
            !old(self)@.contains_key(key@),
        ensures
            final(self).wf(),
            final(self)@ == old(self)@.insert(key@, value),
    {
        let ghost before = *self;
        let ghost k0 = key@;
        let ghost n = self.entries@.len();
        self.entries.push((key, value));
        proof {
            assert forall|a: int| 0 <= a < n implies self.entries@[a].0@ != k0 by {
                assert(self.entries@[a] == before.entries@[a]);
                assert(!before.key_at(a, k0));
            }
            assert(self.wf()) by {
                assert forall|a: int, b: int|
                    0 <= a < self.entries@.len() && 0 <= b < self.entries@.len() && a
                        != b implies self.entries@[a].0@ != self.entries@[b].0@ by {
                    if a < n && b < n {
                        assert(self.entries@[a] == before.entries@[a]);
                        assert(self.entries@[b] == before.entries@[b]);
                    }
                }
            }
            assert forall|k: Seq<char>|
                #![trigger self@.contains_key(k)]
                self@.contains_key(k) <==> before@.insert(k0, value).contains_key(k) by {
                if self@.contains_key(k) {
                    let a = choose|a: int| self.key_at(a, k);
                    if a < n {
                        assert(before.key_at(a, k));
                    }
                }
                if before@.contains_key(k) {
                    let a = choose|a: int| before.key_at(a, k);
                    assert(self.key_at(a, k));
                }
                if k == k0 {
                    assert(self.key_at(n as int, k));
                }
            }
            assert forall|k: Seq<char>| #[trigger]
                self@.contains_key(k) implies self@[k] == before@.insert(k0, value)[k] by {
                let a = choose|a: int| self.key_at(a, k);
                self.lemma_entry(a);
                if a < n {
                    assert(before.key_at(a, k));
                    before.lemma_entry(a);
                }
            }
            assert(self@ =~= before@.insert(k0, value));
        }
    }

    /// The entries, in the order they were put in: each key of the table
    /// once, with its value.
    pub fn entries(&self) -> (r: &Vec<(String, V)>)
        requires
            self.wf(),
        ensures
            r@ == self.entry_seq(),
            r@.len() == self@.len(),
            forall|i: int|
                0 <= i < r@.len() ==> self@.contains_key(#[trigger] r@[i].0@) && self@[r@[i].0@]
                    == r@[i].1,
            forall|k: Seq<char>|
                #[trigger] self@.contains_key(k) ==> exists|i: int| 0 <= i < r@.len() && r@[i].0@ == k,
    {
        proof {
            self.lemma_dom_size();
            assert forall|i: int| 0 <= i < self.entries@.len() implies self@.contains_key(
                #[trigger] self.entries@[i].0@,
            ) && self@[self.entries@[i].0@] == self.entries@[i].1 by {
                self.lemma_entry(i);
            }
            assert forall|k: Seq<char>| #[trigger] self@.contains_key(k) implies exists|i: int|
                0 <= i < self.entries@.len() && self.entries@[i].0@ == k by {
                let i = choose|i: int| self.key_at(i, k);
            }
        }
        &self.entries
    }
}

} // verus!
