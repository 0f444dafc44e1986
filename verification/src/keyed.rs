//! A small map from string keys to values, kept as a vector of pairs with
//! no key occurring twice.
use vstd::prelude::*;
use crate::text::str_eq;

verus! {

pub struct KeyedStore<V> {
    entries: Vec<(String, V)>,
}

impl<V> KeyedStore<V> {
    /// The store as a map from key characters to values.
    pub closed spec fn view_map(self) -> Map<Seq<char>, V> {
        Map::new(
            |k: Seq<char>| exists|i: int| 0 <= i < self.entries@.len() && self.entries@[i].0@ == k,
            |k: Seq<char>| {
                let i = choose|i: int| 0 <= i < self.entries@.len() && self.entries@[i].0@ == k;
                self.entries@[i].1
            },
        )
    }

    /// The keys in storage order.
    pub closed spec fn key_seq(self) -> Seq<Seq<char>> {
        self.entries@.map_values(|e: (String, V)| e.0@)
    }

    /// The values in storage order.
    pub closed spec fn value_seq(self) -> Seq<V> {
        self.entries@.map_values(|e: (String, V)| e.1)
    }

    /// No key occurs twice.
    pub closed spec fn wf(self) -> bool {
        forall|i: int, j: int| 0 <= i < j < self.entries@.len() ==> self.entries@[i].0@ != self.entries@[j].0@
    }

    proof fn lemma_lookup(self, i: int)
        requires
            self.wf(),
            0 <= i < self.entries@.len(),
        ensures
            self.view_map().contains_key(self.entries@[i].0@),
            self.view_map()[self.entries@[i].0@] == self.entries@[i].1,
    {
        let k = self.entries@[i].0@;
        let j = choose|j: int| 0 <= j < self.entries@.len() && self.entries@[j].0@ == k;
        if j != i {
            if j < i {
                assert(self.entries@[j].0@ != self.entries@[i].0@);
            } else {
                assert(self.entries@[i].0@ != self.entries@[j].0@);
            }
        }
    }

    /// The keys and values in storage order describe the map.
    pub proof fn lemma_sequences(self)
        requires
            self.wf(),
        ensures
            self.key_seq().len() == self.value_seq().len(),
            self.key_seq().no_duplicates(),
            forall|i: int| 0 <= i < self.key_seq().len() ==> self.view_map().contains_key(#[trigger] self.key_seq()[i])
                && self.view_map()[self.key_seq()[i]] == self.value_seq()[i],
            forall|k: Seq<char>| self.view_map().contains_key(k) ==> self.key_seq().contains(k),
            self.view_map().dom().finite(),
            self.view_map().len() == self.key_seq().len(),
    {
        let ks = self.key_seq();
        assert forall|i: int| 0 <= i < ks.len() implies self.view_map().contains_key(#[trigger] ks[i])
            && self.view_map()[ks[i]] == self.value_seq()[i] by {
            self.lemma_lookup(i);
        }
        assert forall|k: Seq<char>| self.view_map().contains_key(k) implies ks.contains(k) by {
            let a = choose|a: int| 0 <= a < self.entries@.len() && self.entries@[a].0@ == k;
            assert(ks[a] == k);
        }
        assert(ks.no_duplicates()) by {
            assert forall|i: int, j: int| 0 <= i < ks.len() && 0 <= j < ks.len() && i != j implies ks[i] != ks[j] by {
                if i < j { } else { }
            }
        }
        ks.unique_seq_to_set();
        assert(self.view_map().dom() =~= ks.to_set());
    }

    pub fn new() -> (r: KeyedStore<V>)
        ensures
            r.wf(),
            r.view_map() == Map::<Seq<char>, V>::empty(),
    {
        let r = KeyedStore { entries: Vec::new() };
        assert(r.view_map() =~= Map::<Seq<char>, V>::empty());
        r
    }

    pub fn len(&self) -> (r: usize)
        requires
            self.wf(),
        ensures
            r == self.view_map().len(),
    {
        proof { self.lemma_sequences(); }
        self.entries.len()
    }

    /// The position of `key`, if stored.
    pub fn find(&self, key: &str) -> (r: Option<usize>)
        requires
            self.wf(),
        ensures
            match r {
                Some(i) => i < self.key_seq().len() && i < self.value_seq().len() && self.key_seq()[i as int] == key@
                    && self.view_map().contains_key(key@) && self.view_map()[key@] == self.value_seq()[i as int],
                None => !self.view_map().contains_key(key@),
            },
    {
        let mut i: usize = 0;
        while i < self.entries.len()
            invariant
                self.wf(),
                i <= self.entries@.len(),
                forall|j: int| 0 <= j < i ==> self.entries@[j].0@ != key@,
            decreases self.entries.len() - i,
        {
            if str_eq(self.entries[i].0.as_str(), key) {
                proof { self.lemma_lookup(i as int); }
                return Some(i);
            }
            i = i + 1;
        }
        None
    }

    /// The key at a position.
    pub fn key_at(&self, i: usize) -> (r: &String)
        requires
            i < self.key_seq().len(),
        ensures
            r@ == self.key_seq()[i as int],
    {
        &self.entries[i].0
    }

    /// The value at a position.
    pub fn value_at(&self, i: usize) -> (r: &V)
        requires
            i < self.value_seq().len(),
        ensures
            *r == self.value_seq()[i as int],
    {
        &self.entries[i].1
    }

    /// Store `v` under `key`, replacing any value stored there.
    pub fn insert(&mut self, key: String, v: V)
        requires
            old(self).wf(),
        ensures
            final(self).wf(),
            final(self).view_map() == old(self).view_map().insert(key@, v),
            !old(self).view_map().contains_key(key@) ==> final(self).value_seq() == old(self).value_seq().push(v)
                && final(self).key_seq() == old(self).key_seq().push(key@),
    {
        let ghost old_self = *self;
        let ghost k0 = key@;
        match self.find(key.as_str()) {
            Some(i) => {
                self.entries.set(i, (key, v));
                proof {
                    assert forall|a: int, b: int| 0 <= a < b < self.entries@.len() implies self.entries@[a].0@ != self.entries@[b].0@ by {
                        assert(old_self.entries@[a].0@ != old_self.entries@[b].0@);
                        assert(old_self.entries@[i as int].0@ == k0) by {
                            assert(old_self.key_seq()[i as int] == old_self.entries@[i as int].0@);
                        }
                    }
                    let m = old_self.view_map().insert(k0, v);
                    assert forall|k: Seq<char>| #![auto] self.view_map().contains_key(k) <==> m.contains_key(k) by {
                        if self.view_map().contains_key(k) {
                            let j = choose|j: int| 0 <= j < self.entries@.len() && self.entries@[j].0@ == k;
                            if j != i { old_self.lemma_lookup(j); }
                        }
                        if old_self.view_map().contains_key(k) {
                            let j = choose|j: int| 0 <= j < old_self.entries@.len() && old_self.entries@[j].0@ == k;
                            if j == i { assert(old_self.key_seq()[i as int] == old_self.entries@[i as int].0@); }
                            assert(self.entries@[j].0@ == k);
                        }
                        if k == k0 { assert(self.entries@[i as int].0@ == k); }
                    }
                    assert forall|k: Seq<char>| #![auto] self.view_map().contains_key(k) implies self.view_map()[k] == m[k] by {
                        let j = choose|j: int| 0 <= j < self.entries@.len() && self.entries@[j].0@ == k;
                        self.lemma_lookup(j);
                        if j != i { old_self.lemma_lookup(j); }
                    }
                    assert(self.view_map() =~= m);
                }
            },
            None => {
                proof {
                    assert forall|j: int| 0 <= j < old_self.entries@.len() implies old_self.entries@[j].0@ != k0 by {
                        old_self.lemma_lookup(j);
                    }
                }
                self.entries.push((key, v));
                proof {
                    let n = old_self.entries@.len() as int;
                    let m = old_self.view_map().insert(k0, v);
                    assert forall|k: Seq<char>| #![auto] self.view_map().contains_key(k) <==> m.contains_key(k) by {
                        if self.view_map().contains_key(k) {
                            let j = choose|j: int| 0 <= j < self.entries@.len() && self.entries@[j].0@ == k;
                            if j != n { old_self.lemma_lookup(j); }
                        }
                        if old_self.view_map().contains_key(k) {
                            let j = choose|j: int| 0 <= j < old_self.entries@.len() && old_self.entries@[j].0@ == k;
                            assert(self.entries@[j].0@ == k);
                        }
                        if k == k0 { assert(self.entries@[n].0@ == k); }
                    }
                    assert forall|k: Seq<char>| #![auto] self.view_map().contains_key(k) implies self.view_map()[k] == m[k] by {
                        let j = choose|j: int| 0 <= j < self.entries@.len() && self.entries@[j].0@ == k;
                        self.lemma_lookup(j);
                        if j != n { old_self.lemma_lookup(j); }
                    }
                    assert(self.view_map() =~= m);
                    assert(self.value_seq() =~= old_self.value_seq().push(v));
                    assert(self.key_seq() =~= old_self.key_seq().push(k0));
                }
            },
        }
    }

    /// Remove the entry at a position and hand out its value.
    pub fn remove_at(&mut self, i: usize) -> (r: V)
        requires
            old(self).wf(),
            i < old(self).key_seq().len(),
        ensures
            final(self).wf(),
            r == old(self).value_seq()[i as int],
            old(self).view_map().contains_key(old(self).key_seq()[i as int]),
            old(self).view_map()[old(self).key_seq()[i as int]] == r,
            final(self).view_map() == old(self).view_map().remove(old(self).key_seq()[i as int]),
            final(self).value_seq() == old(self).value_seq().remove(i as int),
            final(self).key_seq() == old(self).key_seq().remove(i as int),
    {
        let ghost old_self = *self;
        proof { old_self.lemma_lookup(i as int); }
        let ghost k0 = old_self.entries@[i as int].0@;
        let e = self.entries.remove(i);
        proof {
            assert forall|a: int, b: int| 0 <= a < b < self.entries@.len() implies self.entries@[a].0@ != self.entries@[b].0@ by {
                let a2 = if a < i { a } else { a + 1 };
                let b2 = if b < i { b } else { b + 1 };
                assert(self.entries@[a] == old_self.entries@[a2]);
                assert(self.entries@[b] == old_self.entries@[b2]);
            }
            let m = old_self.view_map().remove(k0);
            assert forall|k: Seq<char>| #![auto] self.view_map().contains_key(k) <==> m.contains_key(k) by {
                if self.view_map().contains_key(k) {
                    let a = choose|a: int| 0 <= a < self.entries@.len() && self.entries@[a].0@ == k;
                    let j = if a < i { a } else { a + 1 };
                    assert(old_self.entries@[j] == self.entries@[a]);
                    old_self.lemma_lookup(j);
                    if j < i { assert(old_self.entries@[j].0@ != old_self.entries@[i as int].0@); }
                    else { assert(old_self.entries@[i as int].0@ != old_self.entries@[j].0@); }
                }
                if m.contains_key(k) {
                    let j = choose|j: int| 0 <= j < old_self.entries@.len() && old_self.entries@[j].0@ == k;
                    let a = if j < i { j } else { j - 1 };
                    assert(self.entries@[a] == old_self.entries@[j]);
                }
            }
            assert forall|k: Seq<char>| #![auto] self.view_map().contains_key(k) implies self.view_map()[k] == m[k] by {
                let a = choose|a: int| 0 <= a < self.entries@.len() && self.entries@[a].0@ == k;
                self.lemma_lookup(a);
                let j = if a < i { a } else { a + 1 };
                assert(old_self.entries@[j] == self.entries@[a]);
                old_self.lemma_lookup(j);
            }
            assert(self.view_map() =~= m);
            assert(self.value_seq() =~= old_self.value_seq().remove(i as int));
            assert(self.key_seq() =~= old_self.key_seq().remove(i as int));
        }
        e.1
    }
}

}
