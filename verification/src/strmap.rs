//! A small map from strings to values that keeps its entries in the order in
//! which their keys first arrived.

use vstd::prelude::*;

verus! {

/// A finite map keyed by strings.  No key occurs twice, and a key keeps its
/// place for as long as it stays in the map.
#[derive(Debug)]
pub struct StrMap<V> {
    entries: Vec<(String, V)>,
}

impl<V> View for StrMap<V> {
    type V = Map<Seq<char>, V>;

    /// The map as a mathematical map from key text to value.
    closed spec fn view(&self) -> Map<Seq<char>, V> {
        Map::new(
            |k: Seq<char>| self.keys().contains(k),
            |k: Seq<char>| self.entries@[self.keys().index_of(k)].1,
        )
    }
}

impl<V> StrMap<V> {
    /// The keys in the order in which they are stored.
    pub closed spec fn keys(&self) -> Seq<Seq<char>> {
        Self::keys_of(self.entries@)
    }

    spec fn keys_of(entries: Seq<(String, V)>) -> Seq<Seq<char>> {
        Seq::new(entries.len(), |i: int| entries[i].0@)
    }

    #[verifier::type_invariant]
    spec fn distinct_keys(&self) -> bool {
        self.keys().no_duplicates()
    }

    /// What every map satisfies: the stored keys are pairwise distinct and
    /// are exactly the domain of the view.
    pub open spec fn keyed(&self) -> bool {
        &&& self.keys().no_duplicates()
        &&& forall|k: Seq<char>|
            #![trigger self@.contains_key(k)]
            #![trigger self.keys().contains(k)]
            self@.contains_key(k) <==> self.keys().contains(k)
        &&& self@.dom().finite()
        &&& self@.dom().len() == self.keys().len()
    }

    proof fn lemma_keyed(&self)
        requires
            self.keys().no_duplicates(),
        ensures
            self.keyed(),
    {
        let keys = self.keys();
        keys.unique_seq_to_set();
    }

    /// An empty map.
    pub fn new() -> (m: Self)
        ensures
            m@ == Map::<Seq<char>, V>::empty(),
            m.keys() == Seq::<Seq<char>>::empty(),
    {
        StrMap { entries: Vec::new() }
    }

    /// The number of entries.
    pub fn len(&self) -> (n: usize)
        ensures
            n == self@.len(),
            n == self.keys().len(),
            self.keyed(),
    {
        proof {
            use_type_invariant(self);
            self.lemma_keyed();
        }
        self.entries.len()
    }

    fn position(&self, key: &String) -> (at: Option<usize>)
        ensures
            match at {
                Some(i) => i < self.keys().len() && self.keys()[i as int] == key@,
                None => !self.keys().contains(key@),
            },
    {
        let mut i: usize = 0;
        while i < self.entries.len()
            invariant
                i <= self.entries.len(),
                self.keys().len() == self.entries@.len(),
                forall|j: int| 0 <= j < i ==> self.keys()[j] != key@,
            decreases self.entries.len() - i,
        {
            if self.entries[i].0 == *key {
                return Some(i);
            }
            i += 1;
        }
        None
    }

    /// Whether `key` has an entry.
    pub fn contains_key(&self, key: &String) -> (found: bool)
        ensures
            found == self@.contains_key(key@),
    {
        self.position(key).is_some()
    }

    /// The value stored under `key`, if any.
    pub fn get(&self, key: &String) -> (value: Option<&V>)
        ensures
            match value {
                Some(v) => self@.contains_key(key@) && *v == self@[key@],
                None => !self@.contains_key(key@),
            },
    {
        proof {
            use_type_invariant(self);
        }
        match self.position(key) {
            Some(i) => Some(&self.entries[i].1),
            None => None,
        }
    }

    /// Stores `value` under `key`, replacing what was there.  A new key goes
    /// to the end; a key already present keeps its place.
    pub fn insert(&mut self, key: String, value: V)
        ensures
            final(self)@ == old(self)@.insert(key@, value),
            final(self).keys() == if old(self)@.contains_key(key@) {
                old(self).keys()
            } else {
                old(self).keys().push(key@)
            },
    {
        proof {
            use_type_invariant(&*self);
        }
        let ghost before = *self;
        let found = self.position(&key);
        let mut entries: Vec<(String, V)> = Vec::new();
        core::mem::swap(&mut self.entries, &mut entries);
        match found {
            Some(i) => {
                entries.set(i, (key, value));
                assert(Self::keys_of(entries@) =~= before.keys());
            },
            None => {
                entries.push((key, value));
                assert(Self::keys_of(entries@) =~= before.keys().push(key@));
            },
        }
        self.entries = entries;
        proof {
            let after = *self;
            assert forall|k: Seq<char>| after.keys().contains(k) implies #[trigger] after@[k]
                == before@.insert(key@, value)[k] by {}
            assert forall|k: Seq<char>| before.keys().contains(k) implies after.keys().contains(
                k,
            ) by {
                let j = before.keys().index_of(k);
                assert(after.keys()[j] == k);
            }
            if found is None {
                assert(after.keys()[before.keys().len() as int] == key@);
            }
        }
    }

    /// Removes the entry of `key` and returns its value, if there was one.
    /// The entries that stay keep their order.
    pub fn remove(&mut self, key: &String) -> (removed: Option<V>)
        ensures
            final(self)@ == old(self)@.remove(key@),
            removed == if old(self)@.contains_key(key@) {
                Some(old(self)@[key@])
            } else {
                None::<V>
            },
            final(self).keys() == if old(self)@.contains_key(key@) {
                old(self).keys().remove(old(self).keys().index_of(key@))
            } else {
                old(self).keys()
            },
    {
        proof {
            use_type_invariant(&*self);
        }
        let ghost before = *self;
        match self.position(key) {
            Some(i) => {
                let mut entries: Vec<(String, V)> = Vec::new();
                core::mem::swap(&mut self.entries, &mut entries);
                let entry = entries.remove(i);
                assert(Self::keys_of(entries@) =~= before.keys().remove(i as int));
                self.entries = entries;
                proof {
                    let after = *self;
                    assert forall|k: Seq<char>| after.keys().contains(k) implies k != key@
                        && before.keys().contains(k) && #[trigger] after@[k] == before@[k] by {}
                    assert forall|k: Seq<char>| before.keys().contains(k) && k != key@ implies after.keys().contains(
                        k,
                    ) by {
                        let j0 = before.keys().index_of(k);
                        let j = if j0 < i { j0 } else { j0 - 1 };
                        assert(after.keys()[j] == k);
                    }
                }
                Some(entry.1)
            },
            None => None,
        }
    }

    /// Removes every entry.
    pub fn clear(&mut self)
        ensures
            final(self)@ == Map::<Seq<char>, V>::empty(),
            final(self).keys() == Seq::<Seq<char>>::empty(),
    {
        self.entries = Vec::new();
    }

    /// The key stored at place `index`.
    pub fn key_at(&self, index: usize) -> (key: &String)
        requires
            index < self.keys().len(),
        ensures
            key@ == self.keys()[index as int],
            self@.contains_key(key@),
    {
        &self.entries[index].0
    }

    /// The value stored at place `index`.
    pub fn value_at(&self, index: usize) -> (value: &V)
        requires
            index < self.keys().len(),
        ensures
            self@.contains_key(self.keys()[index as int]),
            *value == self@[self.keys()[index as int]],
    {
        proof {
            use_type_invariant(self);
        }
        &self.entries[index].1
    }

    /// Puts `value` in the place `index`, under the key that is there, and
    /// returns the value that it replaces.
    pub fn replace_at(&mut self, index: usize, value: V) -> (replaced: V)
        requires
            index < old(self).keys().len(),
        ensures
            final(self)@ == old(self)@.insert(old(self).keys()[index as int], value),
            final(self).keys() == old(self).keys(),
            replaced == old(self)@[old(self).keys()[index as int]],
    {
        proof {
            use_type_invariant(&*self);
        }
        let ghost before = *self;
        let ghost key = before.keys()[index as int];
        let mut entries: Vec<(String, V)> = Vec::new();
        core::mem::swap(&mut self.entries, &mut entries);
        let mut slot = value;
        core::mem::swap(&mut entries[index].1, &mut slot);
        assert(Self::keys_of(entries@) =~= before.keys());
        self.entries = entries;
        proof {
            let after = *self;
            assert forall|k: Seq<char>| after.keys().contains(k) implies #[trigger] after@[k]
                == before@.insert(key, value)[k] by {}
        }
        slot
    }

    /// Whether the map has no entry.
    pub fn is_empty(&self) -> (empty: bool)
        ensures
            empty == (self.keys().len() == 0),
            empty == (self@ == Map::<Seq<char>, V>::empty()),
    {
        proof {
            use_type_invariant(self);
            self.lemma_keyed();
            if self.keys().len() == 0 {
                assert(self@ =~= Map::<Seq<char>, V>::empty());
            }
        }
        self.entries.len() == 0
    }

    /// The entries in their order, each as its key and its value.
    pub fn into_entries(self) -> (entries: Vec<(String, V)>)
        ensures
            entries@.len() == self.keys().len(),
            forall|i: int|
                0 <= i < entries@.len() ==> (#[trigger] entries@[i]).0@ == self.keys()[i]
                    && entries@[i].1 == self@[self.keys()[i]],
    {
        proof {
            use_type_invariant(&self);
            assert forall|i: int| 0 <= i < self.entries@.len() implies (#[trigger] self.entries@[i]).0@
                == self.keys()[i] && self.entries@[i].1 == self@[self.keys()[i]] by {}
        }
        self.entries
    }

    /// Keeps the entries whose place is marked in `keep` and drops the others.
    /// The entries that stay keep their order.
    pub fn retain_marked(&mut self, keep: &Vec<bool>)
        requires
            keep@.len() == old(self).keys().len(),
        ensures
            final(self)@ == old(self)@.restrict(Self::marked(old(self).keys(), keep@)),
            forall|a: int, b: int|
                0 <= a < b < final(self).keys().len() ==> old(self).keys().index_of(
                    #[trigger] final(self).keys()[a],
                ) < old(self).keys().index_of(#[trigger] final(self).keys()[b]),
    {
        proof {
            use_type_invariant(&*self);
        }
        let ghost before = *self;
        let mut entries: Vec<(String, V)> = Vec::new();
        core::mem::swap(&mut self.entries, &mut entries);
        let n = entries.len();
        let mut stack: Vec<(String, V)> = Vec::new();
        while entries.len() > 0
            invariant
                n == before.entries@.len(),
                entries@.len() + stack@.len() == n,
                entries@ == before.entries@.take(entries@.len() as int),
                forall|t: int| 0 <= t < stack@.len() ==> stack@[t] == before.entries@[n - 1 - t],
            decreases entries.len(),
        {
            let entry = entries.pop().unwrap();
            stack.push(entry);
        }
        let mut kept: Vec<(String, V)> = Vec::new();
        let ghost mut from: Seq<int> = Seq::empty();
        let mut i: usize = 0;
        while i < n
            invariant
                n == before.entries@.len(),
                n == keep@.len(),
                i <= n,
                stack@.len() == n - i,
                forall|t: int| 0 <= t < stack@.len() ==> stack@[t] == before.entries@[n - 1 - t],
                from.len() == kept@.len(),
                forall|t: int| 0 <= t < from.len() ==> 0 <= #[trigger] from[t] < i && keep@[from[t]],
                forall|t: int| 0 <= t < from.len() ==> kept@[t] == before.entries@[#[trigger] from[t]],
                forall|a: int, b: int| 0 <= a < b < from.len() ==> from[a] < from[b],
                forall|j: int| 0 <= j < i && #[trigger] keep@[j] ==> from.contains(j),
            decreases n - i,
        {
            let entry = stack.pop().unwrap();
            if keep[i] {
                kept.push(entry);
                proof {
                    let grown = from.push(i as int);
                    assert forall|j: int| 0 <= j < i + 1 && keep@[j] implies grown.contains(j) by {
                        if j < i {
                            let t = choose|t: int| 0 <= t < from.len() && from[t] == j;
                            assert(grown[t] == j);
                        } else {
                            assert(grown[from.len() as int] == j);
                        }
                    }
                    from = grown;
                }
            }
            i += 1;
        }
        proof {
            let keys = before.keys();
            let new_keys = Self::keys_of(kept@);
            assert forall|t: int| 0 <= t < new_keys.len() implies new_keys[t] == keys[from[t]] by {}
        }
        self.entries = kept;
        proof {
            let after = *self;
            let keys = before.keys();
            let chosen = Self::marked(keys, keep@);
            assert forall|t: int| 0 <= t < after.keys().len() implies after.keys()[t] == keys[from[t]]
                && keys.index_of(after.keys()[t]) == from[t] by {}
            assert forall|k: Seq<char>| after.keys().contains(k) implies chosen.contains(k)
                && keys.contains(k) && #[trigger] after@[k] == before@[k] by {}
        }
    }

    /// The keys whose place in `keys` is marked in `keep`.
    pub open spec fn marked(keys: Seq<Seq<char>>, keep: Seq<bool>) -> Set<Seq<char>> {
        Set::new(|k: Seq<char>| exists|j: int| 0 <= j < keys.len() && keys[j] == k && keep[j])
    }
}

} // verus!
