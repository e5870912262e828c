use vstd::prelude::*;

verus! {

/// A map from text keys to values that remembers the order in which keys
/// were first added. It stands for a storage map of the contract host: a key
/// is written once and later writes under it replace the value in place.
pub struct StrMap<T> {
    entries: Vec<(String, T)>,
}

impl<T: View> View for StrMap<T> {
    type V = Map<Seq<char>, T::V>;

    /// The stored keys, each with the view of its value.
    closed spec fn view(&self) -> Map<Seq<char>, T::V> {
        Map::new(
            |k: Seq<char>| self.keys().contains(k),
            |k: Seq<char>| self.entries@[self.keys().index_of(k)].1@,
        )
    }
}

impl<T: View> StrMap<T> {
    /// The keys, in the order in which they were first added.
    pub closed spec fn keys(&self) -> Seq<Seq<char>> {
        Seq::new(self.entries@.len(), |i: int| self.entries@[i].0@)
    }

    /// Well-formedness: no key is stored twice.
    pub open spec fn wf(&self) -> bool {
        self.keys().no_duplicates()
    }

    proof fn lemma_value_at(&self, i: int)
        requires
            self.wf(),
            0 <= i < self.entries@.len(),
        ensures
            self@.contains_key(self.keys()[i]),
            self@[self.keys()[i]] == self.entries@[i].1@,
    {
        let k = self.keys()[i];
        assert(self.keys().contains(k));
        let j = self.keys().index_of(k);
        assert(self.keys()[j] == k);
    }

    /// The stored keys are exactly the keys of the map.
    pub proof fn lemma_keys_domain(&self)
        requires
            self.wf(),
        ensures
            forall|k: Seq<char>| self@.contains_key(k) <==> self.keys().contains(k),
    {
    }

    /// An empty map.
    pub fn new() -> (r: Self)
        ensures
            r.wf(),
            r@ == Map::<Seq<char>, T::V>::empty(),
            r.keys() == Seq::<Seq<char>>::empty(),
    {
        let r = StrMap { entries: Vec::new() };
        assert(r@ =~= Map::<Seq<char>, T::V>::empty());
        assert(r.keys() =~= Seq::<Seq<char>>::empty());
        r
    }

    /// The position of `key` among the entries, if it is stored.
    fn find(&self, key: &String) -> (r: Option<usize>)
        requires
            self.wf(),
        ensures
            r is Some <==> self@.contains_key(key@),
            r is Some ==> r->0 < self.entries@.len() && self.keys()[r->0 as int] == key@,
    {
        let mut i: usize = 0;
        while i < self.entries.len()
            invariant
                i <= self.entries@.len(),
                forall|j: int| 0 <= j < i ==> self.keys()[j] != key@,
            decreases self.entries@.len() - i,
        {
            if self.entries[i].0 == *key {
                assert(self.keys()[i as int] == key@);
                return Some(i);
            }
            i = i + 1;
        }
        assert(!self.keys().contains(key@));
        None
    }

    /// The value stored under `key`, if any.
    pub fn get(&self, key: &String) -> (r: Option<&T>)
        requires
            self.wf(),
        ensures
            r is Some <==> self@.contains_key(key@),
            r is Some ==> r->0@ == self@[key@],
    {
        match self.find(key) {
            Some(i) => {
                proof {
                    self.lemma_value_at(i as int);
                }
                Some(&self.entries[i].1)
            },
            None => None,
        }
    }

    /// Stores `value` under `key`, in place where the key is already stored,
    /// and as the last key otherwise.
    pub fn insert(&mut self, key: String, value: T)
        requires
            old(self).wf(),
        ensures
            final(self).wf(),
            final(self)@ == old(self)@.insert(key@, value@),
            final(self).keys() == (if old(self)@.contains_key(key@) {
                old(self).keys()
            } else {
                old(self).keys().push(key@)
            }),
    {
        let ghost old_map = self@;
        let ghost old_keys = self.keys();
        let ghost kv = key@;
        let ghost vv = value@;
        match self.find(&key) {
            Some(i) => {
                self.entries.set(i, (key, value));
                assert(self.keys() =~= old_keys);
                assert forall|k: Seq<char>|
                    #![trigger self@.contains_key(k)]
                    self@.contains_key(k) == old_map.insert(kv, vv).contains_key(k) by {}
                assert forall|k: Seq<char>| #[trigger]
                    self@.contains_key(k) implies self@[k] == old_map.insert(kv, vv)[k] by {
                    let j = self.keys().index_of(k);
                    self.lemma_value_at(j);
                    if j != i {
                        assert(self.entries@[j] == old(self).entries@[j]);
                        old(self).lemma_value_at(j);
                    }
                }
                assert(self@ =~= old_map.insert(kv, vv));
            },
            None => {
                self.entries.push((key, value));
                assert(self.keys() =~= old_keys.push(kv));
                assert forall|k: Seq<char>|
                    #![trigger self@.contains_key(k)]
                    self@.contains_key(k) == old_map.insert(kv, vv).contains_key(k) by {
                    assert(self.keys()[old_keys.len() as int] == kv);
                    if k != kv && self.keys().contains(k) {
                        let j = self.keys().index_of(k);
                        assert(old_keys[j] == k);
                    }
                    if old_keys.contains(k) {
                        let j = old_keys.index_of(k);
                        assert(self.keys()[j] == k);
                    }
                }
                assert forall|k: Seq<char>| #[trigger]
                    self@.contains_key(k) implies self@[k] == old_map.insert(kv, vv)[k] by {
                    let j = self.keys().index_of(k);
                    self.lemma_value_at(j);
                    if j != old_keys.len() {
                        assert(self.entries@[j] == old(self).entries@[j]);
                        old(self).lemma_value_at(j);
                    }
                }
                assert(self@ =~= old_map.insert(kv, vv));
            },
        }
    }

    /// Stores `value` under `key`, which is already stored, and hands back the
    /// value that was there. The order of the keys does not change.
    pub fn replace(&mut self, key: &String, value: T) -> (previous: T)
        requires
            old(self).wf(),
            old(self)@.contains_key(key@),
        ensures
            previous@ == old(self)@[key@],
            final(self).wf(),
            final(self).keys() == old(self).keys(),
            final(self)@ == old(self)@.insert(key@, value@),
    {
        let i = self.find(key).unwrap();
        proof {
            self.lemma_value_at(i as int);
        }
        let ghost vv = value;
        let mut v = value;
        std::mem::swap(&mut self.entries[i].1, &mut v);
        proof {
            Self::lemma_replace_value(*old(self), *self, i as int, vv);
        }
        v
    }

    proof fn lemma_replace_value(before: Self, after: Self, i: int, v: T)
        requires
            before.wf(),
            0 <= i < before.entries@.len(),
            after.entries@ == before.entries@.update(i, (before.entries@[i].0, v)),
        ensures
            after.wf(),
            after.keys() == before.keys(),
            after@ == before@.insert(before.keys()[i], v@),
    {
        assert(after.keys() =~= before.keys());
        let kv = before.keys()[i];
        assert forall|k: Seq<char>| #[trigger]
            after@.contains_key(k) implies after@[k] == before@.insert(kv, v@)[k] by {
            let j = after.keys().index_of(k);
            after.lemma_value_at(j);
            if j != i {
                before.lemma_value_at(j);
            }
        }
        assert(after@ =~= before@.insert(kv, v@));
    }

    /// The keys, in the order in which they were first added.
    pub fn key_list(&self) -> (r: Vec<String>)
        ensures
            r@.map_values(|s: String| s@) == self.keys(),
    {
        let mut r: Vec<String> = Vec::new();
        let mut i: usize = 0;
        while i < self.entries.len()
            invariant
                i <= self.entries@.len(),
                r@.map_values(|s: String| s@) == self.keys().take(i as int),
            decreases self.entries@.len() - i,
        {
            r.push(self.entries[i].0.clone());
            i = i + 1;
            assert(r@.map_values(|s: String| s@) =~= self.keys().take(i as int)) by {
                assert(r@.map_values(|s: String| s@) =~= self.keys().take(i - 1).push(
                    self.keys()[i - 1],
                ));
            }
        }
        assert(self.keys().take(i as int) =~= self.keys());
        r
    }
}

} // verus!
