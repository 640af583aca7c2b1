//! Hash maps and sets keyed by small integers, built with the FNV hasher:
//! fast, and not resistant to chosen-key collisions.
//!
//! The FNV hasher is deterministic: every hasher that the default builder
//! makes starts from the same offset basis and folds the written bytes into
//! its state. The functions below rest on that: a map built here behaves as a
//! finite map from keys to values, a set as a finite set of keys. As with
//! every allocation, a capacity that the allocator cannot serve ends the
//! process; nothing here speaks of that.

use fnv::FnvHasher;
use std::collections::HashMap;
use std::collections::HashSet;
use std::hash::BuildHasherDefault;
use std::hash::Hash;
use vstd::prelude::*;
use vstd::std_specs::hash::obeys_key_model;

verus! {

/// The FNV hasher: a 64-bit state folded over the bytes written.
#[verifier::external_type_specification]
#[verifier::external_body]
pub struct ExFnvHasher(FnvHasher);

/// The builder that makes every hasher with `Default`.
#[verifier::external_type_specification]
#[verifier::external_body]
#[verifier::reject_recursive_types(H)]
pub struct ExBuildHasherDefault<H>(BuildHasherDefault<H>);

pub type FastMap<T, U> = HashMap<T, U, BuildHasherDefault<FnvHasher>>;

pub type FastSet<T> = HashSet<T, BuildHasherDefault<FnvHasher>>;

/// `HashMap::with_capacity_and_hasher` with the default FNV builder: the map
/// comes back empty.
#[verifier::external_body]
pub(crate) fn fast_map_with_capacity<T: Hash + Eq, U>(capacity: usize) -> (fresh: FastMap<T, U>)
    ensures
        fresh@.dom() == Set::<T>::empty(),
{
    HashMap::with_capacity_and_hasher(capacity, BuildHasherDefault::<FnvHasher>::default())
}

/// `HashMap::insert` on a map with FNV hashers: the key is bound to the new
/// value, the other bindings stay, and the value that the key had before, if
/// any, comes back.
#[verifier::external_body]
pub(crate) fn fast_map_insert<T: Hash + Eq, U>(map: &mut FastMap<T, U>, key: T, value: U) -> (prior:
    Option<U>)
    requires
        obeys_key_model::<T>(),
    ensures
        final(map)@ == old(map)@.insert(key, value),
        prior == (if old(map)@.contains_key(key) {
            Some(old(map)@[key])
        } else {
            None
        }),
{
    map.insert(key, value)
}

/// `HashMap::remove` on a map with FNV hashers: the key's binding leaves, the
/// others stay, and the value that the key had, if any, comes back.
#[verifier::external_body]
pub(crate) fn fast_map_remove<T: Hash + Eq, U>(map: &mut FastMap<T, U>, key: &T) -> (prior: Option<U>)
    requires
        obeys_key_model::<T>(),
    ensures
        final(map)@ == old(map)@.remove(*key),
        prior == (if old(map)@.contains_key(*key) {
            Some(old(map)@[*key])
        } else {
            None
        }),
{
    map.remove(key)
}

/// `HashMap::get` on a map with FNV hashers: the value bound to the key, if
/// there is one.
#[verifier::external_body]
pub(crate) fn fast_map_get<'a, T: Hash + Eq, U>(map: &'a FastMap<T, U>, key: &T) -> (found: Option<&'a U>)
    requires
        obeys_key_model::<T>(),
    ensures
        found == (if map@.contains_key(*key) {
            Some(&map@[*key])
        } else {
            None
        }),
{
    map.get(key)
}

/// `HashMap::contains_key` on a map with FNV hashers: whether the key is
/// bound.
#[verifier::external_body]
pub(crate) fn fast_map_contains_key<T: Hash + Eq, U>(map: &FastMap<T, U>, key: &T) -> (found: bool)
    requires
        obeys_key_model::<T>(),
    ensures
        found == map@.contains_key(*key),
{
    map.contains_key(key)
}

/// `HashSet::with_capacity_and_hasher` with the default FNV builder: the set
/// comes back empty.
#[verifier::external_body]
pub(crate) fn fast_set_with_capacity<T: Hash + Eq>(capacity: usize) -> (fresh: FastSet<T>)
    ensures
        fresh@ == Set::<T>::empty(),
{
    HashSet::with_capacity_and_hasher(capacity, BuildHasherDefault::<FnvHasher>::default())
}

/// `HashSet::contains` on a set with FNV hashers: whether the key is in it.
#[verifier::external_body]
pub(crate) fn fast_set_contains<T: Hash + Eq>(set: &FastSet<T>, key: &T) -> (found: bool)
    requires
        obeys_key_model::<T>(),
    ensures
        found == set@.contains(*key),
{
    set.contains(key)
}

/// A collection that can be made empty with room for a number of items.
pub trait FastHasher<T>: Sized {
    /// Whether the collection holds nothing.
    spec fn is_fresh(&self) -> bool;

    fn with_capacity(capacity: usize) -> (fresh: Self)
        ensures
            fresh.is_fresh(),
    ;
}

impl<T: Hash + Eq, U> FastHasher<T> for FastMap<T, U> {
    open spec fn is_fresh(&self) -> bool {
        self@ == Map::<T, U>::empty()
    }

    fn with_capacity(capacity: usize) -> (fresh: FastMap<T, U>) {
        let fresh = fast_map_with_capacity(capacity);
        assert(fresh@ =~= Map::<T, U>::empty());
        fresh
    }
}

impl<T: Hash + Eq> FastHasher<T> for FastSet<T> {
    open spec fn is_fresh(&self) -> bool {
        self@ == Set::<T>::empty()
    }

    fn with_capacity(capacity: usize) -> (fresh: FastSet<T>) {
        fast_set_with_capacity(capacity)
    }
}

} // verus!
