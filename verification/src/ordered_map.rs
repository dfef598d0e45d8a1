//! A map from names to values that remembers the order in which the names
//! were first inserted.

use vstd::prelude::*;
use crate::text::str_eq;

verus! {

/// The names under which a list of entries is filed, in order.
pub open spec fn entry_names<V>(entries: Seq<(String, V)>) -> Seq<Seq<char>> {
    Seq::new(entries.len(), |i: int| entries[i].0@)
}

/// An insertion-ordered map from names to values; no name occurs twice.
#[derive(Debug, PartialEq, Eq)]
pub struct OrderedMap<V> {
    entries: Vec<(String, V)>,
}

impl<V: View> View for OrderedMap<V> {
    type V = Map<Seq<char>, V::V>;

    /// The mapping from each name to the view of its value.
    closed spec fn view(&self) -> Map<Seq<char>, V::V> {
        let entries = self.entries@;
        Map::new(
            |name: Seq<char>| entry_names(entries).contains(name),
            |name: Seq<char>| entries[entry_names(entries).index_of(name)].1@,
        )
    }
}

/// The index of the entry filed under `name`, if there is one.
fn position<V>(entries: &Vec<(String, V)>, name: &str) -> (found: Option<usize>)
    ensures
        match found {
            Some(i) => i < entries@.len() && entries@[i as int].0@ == name@,
            None => !entry_names(entries@).contains(name@),
        },
{
    let mut i: usize = 0;
    while i < entries.len()
        invariant
            i <= entries@.len(),
            forall|j: int| 0 <= j < i ==> entries@[j].0@ != name@,
        decreases entries@.len() - i,
    {
        if str_eq(entries[i].0.as_str(), name) {
            return Some(i);
        }
        i += 1;
    }
    None
}

impl<V> OrderedMap<V> {
    #[verifier::type_invariant]
    spec fn names_are_distinct(self) -> bool {
        entry_names(self.entries@).no_duplicates()
    }
}

impl<V: View> OrderedMap<V> {
    /// The names of the map, in the order of their first insertion.
    pub closed spec fn names(&self) -> Seq<Seq<char>> {
        entry_names(self.entries@)
    }

    /// An empty map.
    pub fn new() -> (map: Self)
        ensures
            map@ == Map::<Seq<char>, V::V>::empty(),
            map.names() == Seq::<Seq<char>>::empty(),
    {
        let map = OrderedMap { entries: Vec::new() };
        assert(map@ =~= Map::<Seq<char>, V::V>::empty());
        assert(map.names() =~= Seq::<Seq<char>>::empty());
        map
    }

    /// The names of the map are exactly the keys of its view.
    pub proof fn lemma_names_are_keys(&self)
        ensures
            forall|name: Seq<char>| self.names().contains(name) <==> self@.contains_key(name),
    {
    }

    /// The number of names in the map.
    pub fn len(&self) -> (n: usize)
        ensures
            n == self.names().len(),
            self.names().no_duplicates(),
    {
        proof {
            use_type_invariant(self);
        }
        self.entries.len()
    }

    /// The `i`-th name, in insertion order.
    pub fn name_at(&self, i: usize) -> (name: &str)
        requires
            i < self.names().len(),
        ensures
            name@ == self.names()[i as int],
    {
        self.entries[i].0.as_str()
    }

    /// The value filed under the `i`-th name.
    pub fn value_at(&self, i: usize) -> (value: &V)
        requires
            i < self.names().len(),
        ensures
            self@.contains_key(self.names()[i as int]),
            value@ == self@[self.names()[i as int]],
    {
        proof {
            use_type_invariant(self);
            let names = entry_names(self.entries@);
            assert(names.index_of(names[i as int]) == i);
        }
        &self.entries[i].1
    }

    /// Whether `name` is in the map.
    pub fn contains_key(&self, name: &str) -> (present: bool)
        ensures
            present == self@.contains_key(name@),
    {
        match position(&self.entries, name) {
            Some(i) => {
                assert(entry_names(self.entries@)[i as int] == name@);
                true
            },
            None => false,
        }
    }

    /// The value filed under `name`, if there is one.
    pub fn get(&self, name: &str) -> (found: Option<&V>)
        ensures
            match found {
                Some(value) => self@.contains_key(name@) && self@[name@] == value@,
                None => !self@.contains_key(name@),
            },
    {
        proof {
            use_type_invariant(self);
        }
        match position(&self.entries, name) {
            Some(i) => {
                proof {
                    let names = entry_names(self.entries@);
                    assert(names[i as int] == name@);
                    assert(names.index_of(name@) == i);
                }
                Some(&self.entries[i].1)
            },
            None => None,
        }
    }

    /// Files `value` under `name`. A name that is already in the map keeps
    /// its place and takes the new value; a new name goes last.
    pub fn insert(&mut self, name: String, value: V)
        ensures
            final(self)@ == old(self)@.insert(name@, value@),
            final(self).names() == if old(self)@.contains_key(name@) {
                old(self).names()
            } else {
                old(self).names().push(name@)
            },
    {
        proof {
            use_type_invariant(&*self);
        }
        let ghost before = self.entries@;
        let ghost key = name@;
        let ghost val = value@;
        let mut entries: Vec<(String, V)> = Vec::new();
        core::mem::swap(&mut self.entries, &mut entries);
        match position(&entries, name.as_str()) {
            Some(i) => {
                entries.set(i, (name, value));
                proof {
                    assert(entry_names(entries@) =~= entry_names(before));
                }
                core::mem::swap(&mut self.entries, &mut entries);
                proof {
                    let after = self.entries@;
                    assert(entry_names(after) =~= entry_names(before));
                    assert(entry_names(before)[i as int] == key);
                    assert(entry_names(before).index_of(key) == i);
                    assert(self@ =~= old(self)@.insert(key, val)) by {
                        assert forall|k: Seq<char>| #[trigger] self@.contains_key(k) implies
                            self@[k] == old(self)@.insert(key, val)[k] by {
                            let j = entry_names(before).index_of(k);
                            assert(entry_names(before)[j] == k);
                        }
                    }
                }
            },
            None => {
                entries.push((name, value));
                proof {
                    assert(entry_names(entries@) =~= entry_names(before).push(key));
                }
                core::mem::swap(&mut self.entries, &mut entries);
                proof {
                    let after = self.entries@;
                    let n = before.len() as int;
                    assert(entry_names(after) =~= entry_names(before).push(key));
                    assert(entry_names(after)[n] == key);
                    assert(self@ =~= old(self)@.insert(key, val)) by {
                        assert forall|k: Seq<char>| #[trigger] self@.contains_key(k) implies
                            old(self)@.insert(key, val).contains_key(k)
                            && self@[k] == old(self)@.insert(key, val)[k] by {
                            let j = entry_names(after).index_of(k);
                            assert(entry_names(after)[j] == k);
                            if j < n {
                                assert(entry_names(before)[j] == k);
                                let j0 = entry_names(before).index_of(k);
                                assert(entry_names(before)[j0] == k);
                                assert(entry_names(after)[j0] == k);
                            }
                        }
                        assert forall|k: Seq<char>| #[trigger]
                            old(self)@.insert(key, val).contains_key(k) implies self@.contains_key(
                            k,
                        ) by {
                            if k != key {
                                let j0 = entry_names(before).index_of(k);
                                assert(entry_names(before)[j0] == k);
                                assert(entry_names(after)[j0] == k);
                            }
                        }
                    }
                }
            },
        }
    }
}

} // verus!
