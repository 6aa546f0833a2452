//! A map from names to values in which the case of a name does not count.
//!
//! The names are looked up in a `CaseInsensitiveHashMap`, which holds for
//! each name its place in a list; the values stand in the list, in the order
//! in which their names first came.

use case_insensitive_hashmap::CaseInsensitiveHashMap;
use std::hash::BuildHasher;
use vstd::pervasive::VecAdditionalExecFns;
use vstd::prelude::*;

verus! {

#[verifier::external_type_specification]
#[verifier::external_body]
#[verifier::reject_recursive_types(V)]
#[verifier::reject_recursive_types(S)]
pub struct ExCaseInsensitiveHashMap<V, S: BuildHasher>(CaseInsensitiveHashMap<V, S>);

/// The form of `name` under which a `CaseInsensitiveHashMap` files it: its
/// Unicode case folding, character by character. Two names are the same key
/// when their folded forms are equal.
pub uninterp spec fn folded(name: Seq<char>) -> Seq<char>;

/// What a `CaseInsensitiveHashMap` holds: the value of each key, by the
/// folded form of the key.
pub uninterp spec fn index_contents(index: CaseInsensitiveHashMap<usize>) -> Map<Seq<char>, usize>;

/// `CaseInsensitiveHashMap::new`: a map that holds nothing.
#[verifier::external_body]
fn index_new() -> (created: CaseInsensitiveHashMap<usize>)
    ensures
        index_contents(created).dom() == Set::<Seq<char>>::empty(),
{
    CaseInsensitiveHashMap::new()
}

/// `CaseInsensitiveHashMap::get`: the value filed under a key equal to
/// `name` but for case, if there is one.
#[verifier::external_body]
fn index_get(index: &CaseInsensitiveHashMap<usize>, name: &str) -> (place: Option<usize>)
    ensures
        place == if index_contents(*index).dom().contains(folded(name@)) {
            Some(index_contents(*index)[folded(name@)])
        } else {
            None
        },
{
    index.get(name).copied()
}

/// `CaseInsensitiveHashMap::insert`: files `place` under `name`, in place of
/// the value that a key equal to `name` but for case had, and returns that
/// value.
#[verifier::external_body]
fn index_insert(index: &mut CaseInsensitiveHashMap<usize>, name: &str, place: usize) -> (previous:
    Option<usize>)
    ensures
        index_contents(*final(index)) == index_contents(*old(index)).insert(folded(name@), place),
        previous == if index_contents(*old(index)).dom().contains(folded(name@)) {
            Some(index_contents(*old(index))[folded(name@)])
        } else {
            None
        },
{
    index.insert(name, place)
}

/// A map from names to values. Names that differ only in case are one key.
pub struct NameMap<V> {
    index: CaseInsensitiveHashMap<usize>,
    names: Vec<String>,
    values: Vec<V>,
}

impl<V> NameMap<V> {
    /// The index and the list agree: each key of the index leads to a place
    /// in the list where a name with that folded form stands, and each name
    /// of the list is filed under its place.
    pub closed spec fn wf(&self) -> bool {
        &&& self.names.len() == self.values.len()
        &&& forall|key: Seq<char>| #[trigger]
            index_contents(self.index).dom().contains(key) ==> index_contents(self.index)[key]
                < self.names.len() && folded(
                self.names[index_contents(self.index)[key] as int]@,
            ) == key
        &&& forall|i: int|
            0 <= i < self.names.len() ==> index_contents(self.index).dom().contains(
                folded(#[trigger] self.names[i]@),
            ) && index_contents(self.index)[folded(self.names[i]@)] == i
    }

    /// The names of the map, as they were written when they first came, in
    /// the order in which they came.
    pub closed spec fn names(&self) -> Seq<Seq<char>> {
        Seq::new(self.names.len() as nat, |i: int| self.names[i]@)
    }

    /// The values of the map, each at the place of its name in `names`.
    pub closed spec fn values(&self) -> Seq<V> {
        self.values@
    }

    /// The list and the map agree: the list holds as many values as names,
    /// the value at each place is the value of the name at that place, and
    /// every key of the map is the folded form of a name of the list.
    pub proof fn entries_agree(&self)
        requires
            self.wf(),
        ensures
            self.names().len() == self.values().len(),
            forall|i: int|
                0 <= i < self.names().len() ==> self@.dom().contains(
                    folded(#[trigger] self.names()[i]),
                ) && self@[folded(self.names()[i])] == self.values()[i],
            forall|key: Seq<char>| #[trigger]
                self@.dom().contains(key) ==> exists|i: int|
                    0 <= i < self.names().len() && folded(#[trigger] self.names()[i]) == key,
            forall|i: int, j: int|
                0 <= i < j < self.names().len() ==> folded(#[trigger] self.names()[i]) != folded(
                    #[trigger] self.names()[j],
                ),
    {
        assert forall|key: Seq<char>| #[trigger] self@.dom().contains(key) implies exists|i: int|
            0 <= i < self.names().len() && folded(#[trigger] self.names()[i]) == key by {
            let i = index_contents(self.index)[key] as int;
            assert(folded(self.names()[i]) == key);
        }
    }

    /// A map that holds nothing.
    pub fn new() -> (map: NameMap<V>)
        ensures
            map.wf(),
            map@ == Map::<Seq<char>, V>::empty(),
            map.names().len() == 0,
    {
        let map = NameMap { index: index_new(), names: Vec::new(), values: Vec::new() };
        assert(map@ =~= Map::<Seq<char>, V>::empty());
        map
    }

    /// How many names the map holds.
    pub fn len(&self) -> (n: usize)
        requires
            self.wf(),
        ensures
            n == self.names().len(),
            n == self.values().len(),
    {
        self.names.len()
    }

    /// The name at place `i`, as written when it first came.
    pub fn name_at(&self, i: usize) -> (name: &String)
        requires
            self.wf(),
            i < self.names().len(),
        ensures
            name@ == self.names()[i as int],
    {
        &self.names[i]
    }

    /// The value at place `i`.
    pub fn value_at(&self, i: usize) -> (value: &V)
        requires
            self.wf(),
            i < self.values().len(),
        ensures
            *value == self.values()[i as int],
    {
        &self.values[i]
    }

    /// Whether the map holds a value for `name`, in any case.
    pub fn contains_key(&self, name: &str) -> (found: bool)
        requires
            self.wf(),
        ensures
            found == self@.dom().contains(folded(name@)),
    {
        index_get(&self.index, name).is_some()
    }

    /// The value for `name`, in any case, if the map holds one.
    pub fn get(&self, name: &str) -> (value: Option<&V>)
        requires
            self.wf(),
        ensures
            value == if self@.dom().contains(folded(name@)) {
                Some(&self@[folded(name@)])
            } else {
                None
            },
    {
        match index_get(&self.index, name) {
            Some(place) => Some(&self.values[place]),
            None => None,
        }
    }

    /// Sets the value for `name`. If the map held a value for this name, in
    /// any case, that value is replaced and returned, and the name stays as
    /// it was first written; else the name is added at the end.
    pub fn insert(&mut self, name: String, value: V) -> (previous: Option<V>)
        requires
            old(self).wf(),
        ensures
            final(self).wf(),
            final(self)@ == old(self)@.insert(folded(name@), value),
            previous == if old(self)@.dom().contains(folded(name@)) {
                Some(old(self)@[folded(name@)])
            } else {
                None
            },
            old(self)@.dom().contains(folded(name@)) ==> final(self).names() == old(self).names()
                && final(self).values().len() == old(self).values().len(),
            !old(self)@.dom().contains(folded(name@)) ==> final(self).names() == old(
                self,
            ).names().push(name@) && final(self).values() == old(self).values().push(value),
    {
        match index_get(&self.index, name.as_str()) {
            Some(place) => {
                let mut held = value;
                self.values.set_and_swap(place, &mut held);
                assert(final(self)@ =~= old(self)@.insert(folded(name@), value));
                Some(held)
            },
            None => {
                let place = self.names.len();
                index_insert(&mut self.index, name.as_str(), place);
                self.names.push(name);
                self.values.push(value);
                assert(final(self)@ =~= old(self)@.insert(folded(name@), value));
                assert(final(self).names() =~= old(self).names().push(name@));
                None
            },
        }
    }
}

impl<V> View for NameMap<V> {
    type V = Map<Seq<char>, V>;

    /// The value of each name, by the folded form of the name.
    closed spec fn view(&self) -> Map<Seq<char>, V> {
        Map::new(
            |key: Seq<char>| index_contents(self.index).dom().contains(key),
            |key: Seq<char>| self.values[index_contents(self.index)[key] as int],
        )
    }
}

} // verus!
