//! A finite map keyed by selector that remembers the order of insertion.

use crate::felt::Felt;
use crate::felt_set::{lemma_remove_distinct, without};
use vstd::prelude::*;

verus! {

/// A map from selectors to values. No selector occurs twice; a selector
/// that is inserted for the first time comes after those that are already
/// there, and one that is inserted again keeps its place.
#[derive(Debug)]
pub struct SelectorMap<V> {
    keys: Vec<Felt>,
    values: Vec<V>,
}

impl<V> View for SelectorMap<V> {
    type V = Map<Felt, V>;

    open spec fn view(&self) -> Map<Felt, V> {
        entries_map(self.keys(), self.values())
    }
}

/// The map that sends each key of a list to the value at its position.
pub open spec fn entries_map<K, V>(keys: Seq<K>, values: Seq<V>) -> Map<K, V> {
    Map::new(|key: K| keys.contains(key), |key: K| values[keys.index_of(key)])
}

/// In a list without duplicates the index of the element at a position is
/// that position.
pub proof fn lemma_index_of_distinct<K>(keys: Seq<K>, index: int)
    requires
        keys.no_duplicates(),
        0 <= index < keys.len(),
    ensures
        keys.contains(keys[index]),
        keys.index_of(keys[index]) == index,
{
    assert(keys.contains(keys[index]));
    let found = keys.index_of(keys[index]);
    assert(0 <= found < keys.len() && keys[found] == keys[index]);
}

/// Replacing the value at the position of a key is inserting the pair.
pub proof fn lemma_entries_update<K, V>(keys: Seq<K>, values: Seq<V>, index: int, value: V)
    requires
        keys.no_duplicates(),
        keys.len() == values.len(),
        0 <= index < keys.len(),
    ensures
        entries_map(keys, values.update(index, value)) == entries_map(keys, values).insert(
            keys[index],
            value,
        ),
{
    let after = entries_map(keys, values.update(index, value));
    let expected = entries_map(keys, values).insert(keys[index], value);
    lemma_index_of_distinct(keys, index);
    assert forall|key: K| after.contains_key(key) implies #[trigger] after[key]
        == expected[key] by {
        let at = keys.index_of(key);
        assert(0 <= at < keys.len() && keys[at] == key);
        if key != keys[index] {
            assert(at != index);
        }
    }
    assert(after =~= expected);
}

/// Appending a pair whose key is new is inserting the pair.
pub proof fn lemma_entries_push<K, V>(keys: Seq<K>, values: Seq<V>, key: K, value: V)
    requires
        keys.no_duplicates(),
        keys.len() == values.len(),
        !keys.contains(key),
    ensures
        keys.push(key).no_duplicates(),
        entries_map(keys.push(key), values.push(value)) == entries_map(keys, values).insert(
            key,
            value,
        ),
{
    let longer = keys.push(key);
    let after = entries_map(longer, values.push(value));
    let expected = entries_map(keys, values).insert(key, value);
    assert(longer.no_duplicates()) by {
        assert forall|i: int, j: int| 0 <= i < longer.len() && 0 <= j < longer.len() && i != j implies longer[i] != longer[j] by {
            if i < keys.len() {
                assert(keys.contains(keys[i]));
            }
            if j < keys.len() {
                assert(keys.contains(keys[j]));
            }
        }
    }
    assert forall|k: K| longer.contains(k) <==> (keys.contains(k) || k == key) by {
        if keys.contains(k) {
            let i = keys.index_of(k);
            assert(longer[i] == k);
        }
        if k == key {
            assert(longer[keys.len() as int] == k);
        }
    }
    assert forall|k: K| after.contains_key(k) implies #[trigger] after[k] == expected[k] by {
        let at = longer.index_of(k);
        assert(0 <= at < longer.len() && longer[at] == k);
        if k == key {
            lemma_index_of_distinct(longer, keys.len() as int);
        } else {
            assert(keys.contains(k));
            let before = keys.index_of(k);
            assert(0 <= before < keys.len() && keys[before] == k);
            assert(longer[before] == k);
            assert(at == before);
        }
    }
    assert(after =~= expected);
}

/// Taking out the pair at a position is removing its key.
pub proof fn lemma_entries_remove<K, V>(keys: Seq<K>, values: Seq<V>, index: int)
    requires
        keys.no_duplicates(),
        keys.len() == values.len(),
        0 <= index < keys.len(),
    ensures
        keys.remove(index).no_duplicates(),
        keys.remove(index) == without(keys, keys[index]),
        entries_map(keys.remove(index), values.remove(index)) == entries_map(keys, values).remove(
            keys[index],
        ),
{
    let shorter = keys.remove(index);
    let after = entries_map(shorter, values.remove(index));
    let expected = entries_map(keys, values).remove(keys[index]);
    lemma_remove_distinct(keys, index);
    assert forall|k: K| shorter.contains(k) <==> (keys.contains(k) && k != keys[index]) by {
        assert(shorter.to_set().contains(k) <==> keys.to_set().remove(keys[index]).contains(k));
    }
    assert forall|k: K| after.contains_key(k) implies #[trigger] after[k] == expected[k] by {
        let at = shorter.index_of(k);
        assert(0 <= at < shorter.len() && shorter[at] == k);
        let before = if at < index { at } else { at + 1 };
        assert(keys[before] == k);
        lemma_index_of_distinct(keys, before);
    }
    assert(after =~= expected);
}

/// The map of the values' views.
pub open spec fn views_of<K, V: View>(map: Map<K, V>) -> Map<K, V::V> {
    Map::new(|key: K| map.contains_key(key), |key: K| map[key]@)
}

/// The views of a map with one more pair are the views of the map with
/// the view of the pair.
pub proof fn lemma_views_insert<K, V: View>(map: Map<K, V>, key: K, value: V)
    ensures
        views_of(map.insert(key, value)) == views_of(map).insert(key, value@),
{
    assert(views_of(map.insert(key, value)) =~= views_of(map).insert(key, value@));
}

impl<V: View> SelectorMap<V> {
    /// The map from each selector to the view of its value.
    pub open spec fn model(&self) -> Map<Felt, V::V> {
        views_of(self@)
    }
}

impl<V> SelectorMap<V> {
    #[verifier::type_invariant]
    spec fn well_formed(self) -> bool {
        self.keys@.no_duplicates() && self.keys@.len() == self.values@.len()
    }

    /// The selectors in the order in which they were first inserted.
    pub closed spec fn keys(&self) -> Seq<Felt> {
        self.keys@
    }

    /// The values, each at the position of its selector.
    pub closed spec fn values(&self) -> Seq<V> {
        self.values@
    }

    /// The value of a selector, if the map has one.
    pub open spec fn lookup(&self, key: Felt) -> Option<V> {
        if self@.contains_key(key) {
            Some(self@[key])
        } else {
            None
        }
    }

    /// The empty map.
    pub fn new() -> (map: SelectorMap<V>)
        ensures
            map.keys() == Seq::<Felt>::empty(),
            map.values() == Seq::<V>::empty(),
            map@ == Map::<Felt, V>::empty(),
    {
        let map = SelectorMap { keys: Vec::new(), values: Vec::new() };
        assert(map@ =~= Map::<Felt, V>::empty());
        map
    }

    /// The number of entries. The postconditions say how the order and
    /// the map belong together.
    pub fn len(&self) -> (len: usize)
        ensures
            len == self.keys().len(),
            len == self.values().len(),
            self.keys().no_duplicates(),
            self@.dom() == self.keys().to_set(),
            forall|index: int|
                0 <= index < len ==> self@.contains_key(#[trigger] self.keys()[index]) && self@[self.keys()[index]]
                    == self.values()[index],
    {
        proof {
            use_type_invariant(self);
            assert(self@.dom() =~= self.keys().to_set());
            assert forall|index: int| 0 <= index < self.keys().len() implies self@.contains_key(
                #[trigger] self.keys()[index],
            ) && self@[self.keys()[index]] == self.values()[index] by {
                lemma_index_of_distinct(self.keys(), index);
            }
        }
        self.keys.len()
    }

    /// The selector at a position of the insertion order.
    pub fn key_at(&self, index: usize) -> (key: Felt)
        requires
            index < self.keys().len(),
        ensures
            key == self.keys()[index as int],
            self@.contains_key(key),
    {
        proof {
            use_type_invariant(self);
            lemma_index_of_distinct(self.keys(), index as int);
        }
        self.keys[index]
    }

    /// The value at a position of the insertion order.
    pub fn value_at(&self, index: usize) -> (value: &V)
        requires
            index < self.keys().len(),
        ensures
            *value == self.values()[index as int],
            self@.contains_key(self.keys()[index as int]),
            *value == self@[self.keys()[index as int]],
    {
        proof {
            use_type_invariant(self);
            lemma_index_of_distinct(self.keys(), index as int);
        }
        &self.values[index]
    }

    /// The position of a selector, if the map has it.
    pub fn index_of(&self, key: &Felt) -> (position: Option<usize>)
        ensures
            match position {
                Some(index) => {
                    &&& index < self.keys().len()
                    &&& self.keys()[index as int] == *key
                    &&& self@.contains_key(*key)
                    &&& self@[*key] == self.values()[index as int]
                },
                None => !self@.contains_key(*key),
            },
    {
        proof {
            use_type_invariant(self);
        }
        let mut index: usize = 0;
        while index < self.keys.len()
            invariant
                index <= self.keys.len(),
                self.keys@.no_duplicates(),
                self.keys@.len() == self.values@.len(),
                forall|i: int| 0 <= i < index ==> self.keys@[i] != *key,
            decreases self.keys.len() - index,
        {
            if self.keys[index] == *key {
                proof {
                    lemma_index_of_distinct(self.keys(), index as int);
                }
                return Some(index);
            }
            index += 1;
        }
        None
    }

    /// Whether the map has a value for a selector.
    pub fn contains_key(&self, key: &Felt) -> (found: bool)
        ensures
            found == self@.contains_key(*key),
    {
        self.index_of(key).is_some()
    }

    /// The value of a selector, if the map has one.
    pub fn get(&self, key: &Felt) -> (value: Option<&V>)
        ensures
            match value {
                Some(value) => self.lookup(*key) == Some(*value),
                None => self.lookup(*key) is None,
            },
    {
        match self.index_of(key) {
            Some(index) => {
                proof {
                    use_type_invariant(self);
                }
                Some(&self.values[index])
            },
            None => None,
        }
    }

    /// Gives a selector a value. A selector that had one keeps its place
    /// in the order; a new one goes to the end. Returns whether the
    /// selector had a value.
    pub fn insert(&mut self, key: Felt, value: V) -> (replaced: bool)
        ensures
            replaced == old(self)@.contains_key(key),
            final(self)@ == old(self)@.insert(key, value),
            final(self).keys() == if replaced {
                old(self).keys()
            } else {
                old(self).keys().push(key)
            },
            final(self).values() == if replaced {
                old(self).values().update(old(self).keys().index_of(key), value)
            } else {
                old(self).values().push(value)
            },
    {
        proof {
            use_type_invariant(&*self);
        }
        let position = self.index_of(&key);
        let mut taken = SelectorMap { keys: Vec::new(), values: Vec::new() };
        std::mem::swap(self, &mut taken);
        let SelectorMap { mut keys, mut values } = taken;
        let replaced = match position {
            Some(index) => {
                proof {
                    lemma_index_of_distinct(keys@, index as int);
                    lemma_entries_update(keys@, values@, index as int, value);
                }
                values.set(index, value);
                true
            },
            None => {
                proof {
                    lemma_entries_push(keys@, values@, key, value);
                }
                keys.push(key);
                values.push(value);
                false
            },
        };
        *self = SelectorMap { keys, values };
        replaced
    }

    /// Takes a selector and its value out of the map. Returns the value,
    /// if the selector had one.
    pub fn remove(&mut self, key: &Felt) -> (value: Option<V>)
        ensures
            value == old(self).lookup(*key),
            final(self)@ == old(self)@.remove(*key),
            final(self).keys() == without(old(self).keys(), *key),
    {
        proof {
            use_type_invariant(&*self);
        }
        match self.index_of(key) {
            Some(index) => {
                let mut taken = SelectorMap { keys: Vec::new(), values: Vec::new() };
                std::mem::swap(self, &mut taken);
                let SelectorMap { mut keys, mut values } = taken;
                proof {
                    lemma_entries_remove(keys@, values@, index as int);
                }
                keys.remove(index);
                let value = values.remove(index);
                *self = SelectorMap { keys, values };
                Some(value)
            },
            None => {
                proof {
                    crate::felt_set::lemma_without_absent(self.keys(), *key);
                    assert(self@ =~= self@.remove(*key));
                }
                None
            },
        }
    }
}

} // verus!
