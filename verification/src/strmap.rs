//! A dictionary keyed by text.
//!
//! [`StrMap`] keeps its entries in a vector, each key once, in the order in
//! which the keys were first inserted. Its view is the mathematical map from
//! key text to value view; every contract below is stated over that map.

use crate::text::same_text;
use vstd::prelude::*;
use vstd::set_lib::lemma_subset_equality;

verus! {

/// Values that are compared by what they stand for.
pub trait SameAs: View + Sized {
    /// `true` exactly when `self` and `other` have the same view.
    fn same_as(&self, other: &Self) -> (same: bool)
        ensures
            same == (self@ == other@),
    ;
}

impl SameAs for String {
    fn same_as(&self, other: &Self) -> (same: bool) {
        same_text(self.as_str(), other.as_str())
    }
}

/// The keys of `entries`, in order, as text.
pub open spec fn keys_of<V>(entries: Seq<(String, V)>) -> Seq<Seq<char>> {
    Seq::new(entries.len(), |i: int| entries[i].0@)
}

/// A dictionary from text to `V`.
#[derive(Debug)]
pub struct StrMap<V> {
    entries: Vec<(String, V)>,
}

impl<V> StrMap<V> {
    /// The keys in the order of their first insertion.
    pub closed spec fn keys(&self) -> Seq<Seq<char>> {
        keys_of(self.entries@)
    }

    /// No key is held twice.
    #[verifier::type_invariant]
    spec fn keys_distinct(&self) -> bool {
        self.keys().no_duplicates()
    }

    /// The key of the entry at `index`.
    pub fn key_at(&self, index: usize) -> (key: &String)
        requires
            index < self.keys().len(),
        ensures
            key@ == self.keys()[index as int],
    {
        &self.entries[index].0
    }

    /// The position of `key` among the keys, if it is one of them.
    pub fn position(&self, key: &str) -> (found: Option<usize>)
        ensures
            match found {
                Some(i) => i < self.keys().len() && self.keys()[i as int] == key@,
                None => !self.keys().contains(key@),
            },
    {
        let n = self.entries.len();
        let mut i: usize = 0;
        while i < n
            invariant
                n == self.entries.len(),
                i <= n,
                forall|j: int| 0 <= j < i ==> self.keys()[j] != key@,
            decreases n - i,
        {
            if same_text(self.entries[i].0.as_str(), key) {
                return Some(i);
            }
            i += 1;
        }
        None
    }
}

impl<V: View> View for StrMap<V> {
    type V = Map<Seq<char>, V::V>;

    closed spec fn view(&self) -> Map<Seq<char>, V::V> {
        Map::new(
            |k: Seq<char>| self.keys().contains(k),
            |k: Seq<char>| self.entries@[self.keys().index_of(k)].1@,
        )
    }
}

impl<V: View> StrMap<V> {
    /// An empty dictionary.
    pub fn new() -> (out: Self)
        ensures
            out@ == Map::<Seq<char>, V::V>::empty(),
            out.keys() == Seq::<Seq<char>>::empty(),
    {
        StrMap { entries: Vec::new() }
    }

    /// The number of entries. The keys list the domain of the view, each key
    /// once.
    pub fn len(&self) -> (n: usize)
        ensures
            n == self.keys().len(),
            n == self@.dom().len(),
            self@.dom().finite(),
            self.keys().no_duplicates(),
            self.keys().to_set() == self@.dom(),
    {
        proof {
            use_type_invariant(self);
            self.keys().unique_seq_to_set();
        }
        self.entries.len()
    }

    /// `true` exactly when nothing is held.
    pub fn is_empty(&self) -> (empty: bool)
        ensures
            empty == (self@ == Map::<Seq<char>, V::V>::empty()),
    {
        let n = self.len();
        proof {
            if n == 0 {
                assert(self@ =~= Map::<Seq<char>, V::V>::empty());
            }
        }
        n == 0
    }

    /// The value of the entry at `index`.
    pub fn value_at(&self, index: usize) -> (value: &V)
        requires
            index < self.keys().len(),
        ensures
            self@.contains_key(self.keys()[index as int]),
            value@ == self@[self.keys()[index as int]],
    {
        proof {
            use_type_invariant(self);
        }
        &self.entries[index].1
    }

    /// The entries, each key once, in the order of [`Self::keys`].
    pub fn entries(&self) -> (all: &[(String, V)])
        ensures
            keys_of(all@) == self.keys(),
            forall|i: int|
                0 <= i < all.len() ==> self@.contains_key(#[trigger] all[i].0@) && self@[all[i].0@]
                    == all[i].1@,
    {
        proof {
            use_type_invariant(self);
            assert forall|i: int| 0 <= i < self.entries.len() implies self@.contains_key(
                #[trigger] self.entries[i].0@,
            ) && self@[self.entries[i].0@] == self.entries[i].1@ by {
                // Position `i` holds the key, and no other position does.
                assert(self.keys()[i] == self.entries[i].0@);
            }
        }
        self.entries.as_slice()
    }

    /// The value held under `key`, if there is one.
    pub fn get(&self, key: &str) -> (found: Option<&V>)
        ensures
            match found {
                Some(value) => self@.contains_key(key@) && value@ == self@[key@],
                None => !self@.contains_key(key@),
            },
    {
        match self.position(key) {
            Some(i) => Some(self.value_at(i)),
            None => None,
        }
    }

    /// `true` exactly when a value is held under `key`.
    pub fn contains_key(&self, key: &str) -> (found: bool)
        ensures
            found == self@.contains_key(key@),
    {
        self.position(key).is_some()
    }

    /// Puts `value` under `key`, in place of what was held there before.
    pub fn insert(&mut self, key: String, value: V)
        ensures
            final(self)@ == old(self)@.insert(key@, value@),
            final(self).keys() == if old(self).keys().contains(key@) {
                old(self).keys()
            } else {
                old(self).keys().push(key@)
            },
    {
        proof {
            use_type_invariant(&*self);
        }
        let ghost before = *self;
        let found = self.position(key.as_str());
        let mut entries: Vec<(String, V)> = Vec::new();
        std::mem::swap(&mut entries, &mut self.entries);
        match found {
            Some(i) => {
                entries.set(i, (key, value));
                assert(keys_of(entries@) =~= before.keys());
                self.entries = entries;
                assert(self@ =~= before@.insert(key@, value@)) by {
                    assert forall|k: Seq<char>| self.keys().contains(k) implies #[trigger] self@[k]
                        == before@.insert(key@, value@)[k] by {
                        // The keys are as before, so `k` is found where it was.
                        assert(self.keys()[self.keys().index_of(k)] == k);
                    }
                }
            },
            None => {
                entries.push((key, value));
                assert(keys_of(entries@) =~= before.keys().push(key@));
                self.entries = entries;
                assert forall|k: Seq<char>| self.keys().contains(k) <==> before.keys().contains(k)
                    || k == key@ by {
                    if before.keys().contains(k) {
                        let j = before.keys().index_of(k);
                        assert(self.keys()[j] == k);
                    }
                    if k == key@ {
                        assert(self.keys()[before.keys().len() as int] == k);
                    }
                }
                assert(self@ =~= before@.insert(key@, value@)) by {
                    assert forall|k: Seq<char>| self.keys().contains(k) implies #[trigger] self@[k]
                        == before@.insert(key@, value@)[k] by {
                        // An old key is found where it was, the new one at the end.
                        assert(self.keys()[self.keys().index_of(k)] == k);
                        if k != key@ {
                            assert(before.keys()[before.keys().index_of(k)] == k);
                        }
                    }
                }
            },
        }
    }
}

impl<V: SameAs> SameAs for StrMap<V> {
    fn same_as(&self, other: &Self) -> (same: bool) {
        let n = self.len();
        if n != other.len() {
            return false;
        }
        let mut i: usize = 0;
        while i < n
            invariant
                i <= n,
                n == self.keys().len(),
                forall|j: int|
                    0 <= j < i ==> other@.contains_key(#[trigger] self.keys()[j]) && other@[self.keys()[j]]
                        == self@[self.keys()[j]],
            decreases n - i,
        {
            let value = self.value_at(i);
            match other.get(self.key_at(i).as_str()) {
                Some(theirs) => {
                    if !value.same_as(theirs) {
                        return false;
                    }
                },
                None => {
                    return false;
                },
            }
            i += 1;
        }
        proof {
            assert forall|k: Seq<char>| self@.contains_key(k) implies other@.contains_key(k)
                && other@[k] == self@[k] by {
                assert(self.keys()[self.keys().index_of(k)] == k);
            }
            lemma_subset_equality(self@.dom(), other@.dom());
            assert(self@ =~= other@);
        }
        true
    }
}

} // verus!
