//! The map type of the data model.
use std::borrow::Borrow;
use std::collections::hash_map;
use std::collections::HashMap;
use std::hash::Hash;
use vstd::prelude::*;
use vstd::std_specs::cmp::{PartialEqSpec, PartialEqSpecImpl};
use vstd::std_specs::convert::FromSpecImpl;
use vstd::std_specs::hash::{
    contains_borrowed_key, maps_borrowed_key_to_value, obeys_key_model, spec_hash_map_iter,
};
use vstd::std_specs::iter::IteratorSpec;

verus! {

/// A map from keys to values, as the map type of the data model: a hash map
/// that is compared entry by entry.
pub struct DataMap<K: Hash + Eq, V>(HashMap<K, V>);

impl<K: Hash + Eq, V> View for DataMap<K, V> {
    type V = vstd::map::Map<K, V>;

    open spec fn view(&self) -> vstd::map::Map<K, V> {
        self.inner()@
    }
}

impl<K: Hash + Eq, V> DataMap<K, V> {
    /// The hash map inside.
    pub closed spec fn inner(&self) -> HashMap<K, V> {
        self.0
    }

    /// The value that belongs to the key, if the map holds the key.
    pub fn get<Q: ?Sized + Hash + Eq>(&self, k: &Q) -> (r: Option<&V>) where K: Borrow<Q>
        ensures
            obeys_key_model::<K>() ==> match r {
                Some(v) => maps_borrowed_key_to_value(self@, k, *v),
                None => !contains_borrowed_key(self@, k),
            },
    {
        proof {
            broadcast use vstd::std_specs::hash::axiom_random_state_builds_valid_hashers;

        }
        self.0.get(k)
    }

    /// An iterator over the entries of the map, each entry once, in an
    /// order that is not told.
    pub fn iter(&self) -> (it: hash_map::Iter<'_, K, V>)
        ensures
            obeys_key_model::<K>() ==> it == spec_hash_map_iter(&self.inner())
                && it.remaining().no_duplicates(),
    {
        proof {
            broadcast use vstd::std_specs::hash::axiom_random_state_builds_valid_hashers;

        }
        self.0.iter()
    }

    /// The hash map inside.
    pub fn into_inner(self) -> (m: HashMap<K, V>)
        ensures
            m == self.inner(),
    {
        self.0
    }
}

/// Whether an entry of one map has its like in another map: the key is
/// there, with an equal value.
pub open spec fn entry_matches<K, V: PartialEq>(entry: (&K, &V), other: vstd::map::Map<K, V>) -> bool {
    other.contains_key(*entry.0) && (*entry.1).eq_spec(&other[*entry.0])
}

/// Whether each of the first `count` entries that the iterator hands out
/// has its like in `other`.
fn entries_match<'a, K: Hash + Eq, V: PartialEq, I: Iterator<Item = (&'a K, &'a V)>>(
    it: I,
    count: usize,
    other: &'a HashMap<K, V>,
) -> (r: bool)
    ensures
        it.obeys_prophetic_iter_laws() && it.remaining().len() == count && obeys_key_model::<K>()
            && V::obeys_eq_spec() ==> r == (forall|i: int|
            0 <= i < count ==> entry_matches(#[trigger] it.remaining()[i], other@)),
{
    broadcast use vstd::std_specs::hash::group_hash_axioms;

    let mut rest = it;
    let ghost entries = it.remaining();
    let ghost lawful = it.obeys_prophetic_iter_laws() && entries.len() == count
        && obeys_key_model::<K>() && V::obeys_eq_spec();
    let mut done: usize = 0;
    while done < count
        invariant
            done <= count,
            entries == it.remaining(),
            lawful == (it.obeys_prophetic_iter_laws() && entries.len() == count
                && obeys_key_model::<K>() && V::obeys_eq_spec()),
            lawful ==> rest.obeys_prophetic_iter_laws() && rest.remaining() == entries.skip(
                done as int,
            ),
            lawful ==> entries.len() == count && obeys_key_model::<K>() && V::obeys_eq_spec(),
            forall|i: int| 0 <= i < done && lawful ==> entry_matches(#[trigger] entries[i], other@),
        decreases count - done,
    {
        match rest.next() {
            Some(entry) => {
                let (key, value) = entry;
                assert(lawful ==> entry == entries[done as int]);
                assert(lawful ==> entries.skip(done as int).drop_first() =~= entries.skip(
                    done as int + 1,
                ));
                match other.get(key) {
                    Some(v) => {
                        if !(*value == *v) {
                            assert(lawful ==> !entry_matches(entries[done as int], other@));
                            return false;
                        }
                    },
                    None => {
                        assert(lawful ==> !entry_matches(entries[done as int], other@));
                        return false;
                    },
                }
            },
            None => {
                assert(!lawful);
                return true;
            },
        }
        done = done + 1;
    }
    true
}

impl<K: Hash + Eq, V: PartialEq> PartialEq for DataMap<K, V> {
    /// Entry by entry: the same keys, each with an equal value.
    fn eq(&self, other: &Self) -> (r: bool) {
        broadcast use vstd::std_specs::hash::group_hash_axioms;

        let count = self.0.len();
        if count != other.0.len() {
            return false;
        }
        let it = self.0.iter();
        let ghost entries = it.remaining();
        let r = entries_match(it, count, &other.0);
        proof {
            if obeys_key_model::<K>() && V::obeys_eq_spec() {
                assert(entries.len() == count);
                if r {
                    assert forall|k: K| self@.contains_key(k) implies other@.contains_key(k)
                        && self@[k].eq_spec(&other@[k]) by {
                        assert(entries.contains((&k, &self@[k])));
                        let i = choose|i: int|
                            0 <= i < entries.len() && entries[i] == (&k, &self@[k]);
                        assert(entry_matches(entries[i], other@));
                    }
                    assert(self@.dom().subset_of(other@.dom()));
                    vstd::set_lib::lemma_subset_equality(self@.dom(), other@.dom());
                } else {
                    let i = choose|i: int|
                        0 <= i < count && !entry_matches(#[trigger] entries[i], other@);
                    assert(self@.contains_key(*entries[i].0));
                    assert(self@[*entries[i].0] == *entries[i].1);
                }
            }
        }
        r
    }
}

impl<K: Hash + Eq, V: PartialEq> PartialEqSpecImpl for DataMap<K, V> {
    open spec fn obeys_eq_spec() -> bool {
        obeys_key_model::<K>() && V::obeys_eq_spec()
    }

    open spec fn eq_spec(&self, other: &Self) -> bool {
        &&& self@.dom() == other@.dom()
        &&& forall|k: K| #[trigger] self@.contains_key(k) ==> self@[k].eq_spec(&other@[k])
    }
}

impl<K: Hash + Eq, V> From<HashMap<K, V>> for DataMap<K, V> {
    fn from(hashmap: HashMap<K, V>) -> (m: Self)
        ensures
            m.inner() == hashmap,
            m@ == hashmap@,
    {
        Self(hashmap)
    }
}

impl<K: Hash + Eq, V> FromSpecImpl<HashMap<K, V>> for DataMap<K, V> {
    open spec fn obeys_from_spec() -> bool {
        true
    }

    closed spec fn from_spec(hashmap: HashMap<K, V>) -> Self {
        DataMap(hashmap)
    }
}

} // verus!
