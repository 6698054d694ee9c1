//! The target containers: what it means to push one item into each of them,
//! and to extend one of them by another.
use std::collections::{BTreeMap, BTreeSet, HashMap, HashSet, VecDeque};
use std::hash::{BuildHasher, Hash};
use vstd::laws_cmp::obeys_cmp;
use vstd::prelude::*;
use vstd::string::StringExecFns;
use vstd::std_specs::hash::{builds_valid_hashers, obeys_key_model};

verus! {

/// Whether hashed containers with keys `K` and hash builder `S` behave as
/// mathematical sets and maps.
pub open spec fn hashed<K, S>() -> bool {
    obeys_key_model::<K>() && builds_valid_hashers::<S>()
}

/// What a hash set holds. Where the key type or the hash builder does not
/// behave, nothing is known of the set, and its model is the empty set.
pub open spec fn hash_set_model<T, S>(set: HashSet<T, S>) -> Set<T> {
    if hashed::<T, S>() {
        set@
    } else {
        Set::empty()
    }
}

/// What a hash map holds; the empty map where the key type or the hash
/// builder does not behave.
pub open spec fn hash_map_model<K, V, S>(map: HashMap<K, V, S>) -> Map<K, V> {
    if hashed::<K, S>() {
        map@
    } else {
        Map::empty()
    }
}

/// What an ordered set holds; the empty set where the order of the keys does
/// not behave.
pub open spec fn btree_set_model<T: Ord>(set: BTreeSet<T>) -> Set<T> {
    if obeys_cmp::<T>() {
        set@
    } else {
        Set::empty()
    }
}

/// What an ordered map holds; the empty map where the order of the keys does
/// not behave.
pub open spec fn btree_map_model<K: Ord, V>(map: BTreeMap<K, V>) -> Map<K, V> {
    if obeys_cmp::<K>() {
        map@
    } else {
        Map::empty()
    }
}

/// A container that takes items one at a time.
pub trait Push<A>: Sized {
    /// The mathematical value that the container stands for.
    type Model;

    spec fn model(&self) -> Self::Model;

    /// The model after one more item.
    spec fn pushed(m: Self::Model, item: A) -> Self::Model;

    fn push(&mut self, item: A)
        ensures
            final(self).model() == Self::pushed(old(self).model(), item),
    ;
}

/// A container that takes in all that another value holds.
pub trait ExtendWith<A>: Sized {
    /// The mathematical value that the container stands for.
    type Model;

    spec fn model(&self) -> Self::Model;

    /// The model after taking in `other`.
    spec fn extended(m: Self::Model, other: A) -> Self::Model;

    fn extend_with(&mut self, other: A)
        ensures
            final(self).model() == Self::extended(old(self).model(), other),
    ;
}

/// A conversion into a target container of which it is told what it gives.
pub trait ConvertInto<T>: Sized {
    /// Whether `out` is what converting the value gives.
    spec fn converts(self, out: T) -> bool;

    fn convert(self) -> (out: T)
        ensures
            self.converts(out),
    ;
}

/// `From<Vec<T>>` of std for `VecDeque<T>`: turns the vector into a deque
/// of the same elements in the same order.
#[verifier::external_body]
fn deque_from_vec<T>(v: Vec<T>) -> (d: VecDeque<T>)
    ensures
        d@ == v@,
{
    VecDeque::from(v)
}

/// `String::push` of std: appends the character to the end of the string.
#[verifier::external_body]
fn string_push(s: &mut String, c: char)
    ensures
        final(s)@ == old(s)@.push(c),
{
    s.push(c)
}

/// `Extend::extend` of std on a `HashSet`, given another set: inserts each
/// element of the other set, so that the set becomes the union of the two.
/// Stated over the models, which say nothing where the keys do not behave.
#[verifier::external_body]
fn hash_set_extend<T: Eq + Hash, S: BuildHasher>(set: &mut HashSet<T, S>, other: HashSet<T, S>)
    ensures
        hash_set_model(*final(set)) == hash_set_model(*old(set)).union(hash_set_model(other)),
{
    set.extend(other)
}

/// `Extend::extend` of std on a `HashMap`, given another map: inserts each
/// entry of the other map, replacing the value of a key that is present.
/// Stated over the models, which say nothing where the keys do not behave.
#[verifier::external_body]
fn hash_map_extend<K: Eq + Hash, V, S: BuildHasher>(
    map: &mut HashMap<K, V, S>,
    other: HashMap<K, V, S>,
)
    ensures
        hash_map_model(*final(map)) == hash_map_model(*old(map)).union_prefer_right(
            hash_map_model(other),
        ),
{
    map.extend(other)
}

/// `Extend::extend` of std on a `BTreeSet`, given another set: inserts each
/// element of the other set, so that the set becomes the union of the two.
/// Stated over the models, which say nothing where the keys do not behave.
#[verifier::external_body]
fn btree_set_extend<T: Ord>(set: &mut BTreeSet<T>, other: BTreeSet<T>)
    ensures
        btree_set_model(*final(set)) == btree_set_model(*old(set)).union(btree_set_model(other)),
{
    set.extend(other)
}

/// `Extend::extend` of std on a `BTreeMap`, given another map: inserts each
/// entry of the other map, replacing the value of a key that is present.
/// Stated over the models, which say nothing where the keys do not behave.
#[verifier::external_body]
fn btree_map_extend<K: Ord, V>(map: &mut BTreeMap<K, V>, other: BTreeMap<K, V>)
    ensures
        btree_map_model(*final(map)) == btree_map_model(*old(map)).union_prefer_right(
            btree_map_model(other),
        ),
{
    map.extend(other)
}

impl<T> Push<T> for Vec<T> {
    type Model = Seq<T>;

    open spec fn model(&self) -> Seq<T> {
        self@
    }

    open spec fn pushed(m: Seq<T>, item: T) -> Seq<T> {
        m.push(item)
    }

    #[inline]
    fn push(&mut self, item: T) {
        Vec::push(self, item);
    }
}

impl<T> ExtendWith<Vec<T>> for Vec<T> {
    type Model = Seq<T>;

    open spec fn model(&self) -> Seq<T> {
        self@
    }

    open spec fn extended(m: Seq<T>, other: Vec<T>) -> Seq<T> {
        m + other@
    }

    #[inline]
    fn extend_with(&mut self, other: Vec<T>) {
        let mut other = other;
        self.append(&mut other);
    }
}

impl<T> ConvertInto<VecDeque<T>> for Vec<T> {
    open spec fn converts(self, out: VecDeque<T>) -> bool {
        out@ == self@
    }

    #[inline]
    fn convert(self) -> (out: VecDeque<T>) {
        deque_from_vec(self)
    }
}

impl<T: Eq + Hash, S: BuildHasher> Push<T> for HashSet<T, S> {
    type Model = Set<T>;

    open spec fn model(&self) -> Set<T> {
        hash_set_model(*self)
    }

    open spec fn pushed(m: Set<T>, item: T) -> Set<T> {
        if hashed::<T, S>() {
            m.insert(item)
        } else {
            Set::empty()
        }
    }

    #[inline]
    fn push(&mut self, item: T) {
        let _ = self.insert(item);
    }
}

impl<T: Eq + Hash, S: BuildHasher> ExtendWith<HashSet<T, S>> for HashSet<T, S> {
    type Model = Set<T>;

    open spec fn model(&self) -> Set<T> {
        hash_set_model(*self)
    }

    open spec fn extended(m: Set<T>, other: HashSet<T, S>) -> Set<T> {
        m.union(hash_set_model(other))
    }

    #[inline]
    fn extend_with(&mut self, other: HashSet<T, S>) {
        hash_set_extend(self, other);
    }
}

impl<K: Eq + Hash, V, S: BuildHasher> Push<(K, V)> for HashMap<K, V, S> {
    type Model = Map<K, V>;

    open spec fn model(&self) -> Map<K, V> {
        hash_map_model(*self)
    }

    /// A key that is present gets the new value: the last write wins.
    open spec fn pushed(m: Map<K, V>, item: (K, V)) -> Map<K, V> {
        if hashed::<K, S>() {
            m.insert(item.0, item.1)
        } else {
            Map::empty()
        }
    }

    #[inline]
    fn push(&mut self, item: (K, V)) {
        let _ = self.insert(item.0, item.1);
    }
}

impl<K: Eq + Hash, V, S: BuildHasher> ExtendWith<HashMap<K, V, S>> for HashMap<K, V, S> {
    type Model = Map<K, V>;

    open spec fn model(&self) -> Map<K, V> {
        hash_map_model(*self)
    }

    /// Where both hold a key, the value of `other` stays: the last write
    /// wins.
    open spec fn extended(m: Map<K, V>, other: HashMap<K, V, S>) -> Map<K, V> {
        m.union_prefer_right(hash_map_model(other))
    }

    #[inline]
    fn extend_with(&mut self, other: HashMap<K, V, S>) {
        hash_map_extend(self, other);
    }
}

impl<T: Ord> Push<T> for BTreeSet<T> {
    type Model = Set<T>;

    open spec fn model(&self) -> Set<T> {
        btree_set_model(*self)
    }

    open spec fn pushed(m: Set<T>, item: T) -> Set<T> {
        if obeys_cmp::<T>() {
            m.insert(item)
        } else {
            Set::empty()
        }
    }

    #[inline]
    fn push(&mut self, item: T) {
        let _ = self.insert(item);
    }
}

impl<T: Ord> ExtendWith<BTreeSet<T>> for BTreeSet<T> {
    type Model = Set<T>;

    open spec fn model(&self) -> Set<T> {
        btree_set_model(*self)
    }

    open spec fn extended(m: Set<T>, other: BTreeSet<T>) -> Set<T> {
        m.union(btree_set_model(other))
    }

    #[inline]
    fn extend_with(&mut self, other: BTreeSet<T>) {
        btree_set_extend(self, other);
    }
}

impl<K: Ord, V> Push<(K, V)> for BTreeMap<K, V> {
    type Model = Map<K, V>;

    open spec fn model(&self) -> Map<K, V> {
        btree_map_model(*self)
    }

    /// A key that is present gets the new value: the last write wins.
    open spec fn pushed(m: Map<K, V>, item: (K, V)) -> Map<K, V> {
        if obeys_cmp::<K>() {
            m.insert(item.0, item.1)
        } else {
            Map::empty()
        }
    }

    #[inline]
    fn push(&mut self, item: (K, V)) {
        let _ = self.insert(item.0, item.1);
    }
}

impl<K: Ord, V> ExtendWith<BTreeMap<K, V>> for BTreeMap<K, V> {
    type Model = Map<K, V>;

    open spec fn model(&self) -> Map<K, V> {
        btree_map_model(*self)
    }

    /// Where both hold a key, the value of `other` stays: the last write
    /// wins.
    open spec fn extended(m: Map<K, V>, other: BTreeMap<K, V>) -> Map<K, V> {
        m.union_prefer_right(btree_map_model(other))
    }

    #[inline]
    fn extend_with(&mut self, other: BTreeMap<K, V>) {
        btree_map_extend(self, other);
    }
}

impl Push<char> for String {
    type Model = Seq<char>;

    open spec fn model(&self) -> Seq<char> {
        self@
    }

    open spec fn pushed(m: Seq<char>, item: char) -> Seq<char> {
        m.push(item)
    }

    #[inline]
    fn push(&mut self, item: char) {
        string_push(self, item);
    }
}

impl Push<String> for String {
    type Model = Seq<char>;

    open spec fn model(&self) -> Seq<char> {
        self@
    }

    open spec fn pushed(m: Seq<char>, item: String) -> Seq<char> {
        m + item@
    }

    #[inline]
    fn push(&mut self, item: String) {
        self.append(item.as_str());
    }
}

impl Push<()> for () {
    type Model = ();

    open spec fn model(&self) -> () {
        ()
    }

    open spec fn pushed(m: (), item: ()) -> () {
        ()
    }

    #[inline]
    fn push(&mut self, _item: ()) {
    }
}

} // verus!
