//! A map keyed by hash, changed through `&mut` and read through `&`.
use std::collections::HashMap;
use std::hash::Hash;
use vstd::prelude::*;
use vstd::std_specs::hash::obeys_key_model;

verus! {

broadcast use vstd::std_specs::hash::group_hash_axioms;

/// A map from keys to values.
///
/// Its contracts speak of its contents as a `Map`; they hold for every key
/// type whose `==`, hash and clone behave as the standard library's
/// integer types do (`obeys_key_model`).
pub struct SyncMap<K, V> {
    dirty: HashMap<K, V>,
}

impl<K, V> View for SyncMap<K, V> {
    type V = Map<K, V>;

    closed spec fn view(&self) -> Map<K, V> {
        self.dirty@
    }
}

/// Relies on std's `HashMap::shrink_to_fit`: capacity only, the entries are
/// kept.
#[verifier::external_body]
fn shrink_hash_map<K: Eq + Hash, V>(m: &mut HashMap<K, V>)
    ensures
        final(m)@ == old(m)@,
{
    m.shrink_to_fit()
}

/// Relies on std's `HashMap::get_mut`: a reference to the value of `k`
/// that may change it in place, if `k` has one.
#[verifier::external_body]
fn hash_map_get_mut<'a, K: Eq + Hash, V>(m: &'a mut HashMap<K, V>, k: &K) -> (r: Option<&'a mut V>)
    ensures
        obeys_key_model::<K>() ==> (match r {
            Some(v) => {
                &&& old(m)@.contains_key(*k)
                &&& *v == old(m)@[*k]
                &&& final(m)@ == old(m)@.insert(*k, *final(v))
            },
            None => !old(m)@.contains_key(*k) && final(m)@ == old(m)@,
        }),
{
    m.get_mut(k)
}

impl<K, V> SyncMap<K, V> where K: std::cmp::Eq + Hash + Clone {
    /// An empty map.
    pub fn new() -> (r: Self)
        ensures
            r@ == Map::<K, V>::empty(),
    {
        Self { dirty: HashMap::new() }
    }

    /// An empty map with room for `capacity` entries.
    pub fn with_capacity(capacity: usize) -> (r: Self)
        ensures
            r@ == Map::<K, V>::empty(),
    {
        Self { dirty: HashMap::with_capacity(capacity) }
    }

    /// Maps `k` to `v`; returns the value that `k` had, if any.
    pub fn insert(&mut self, k: K, v: V) -> (r: Option<V>)
        ensures
            obeys_key_model::<K>() ==> {
                &&& final(self)@ == old(self)@.insert(k, v)
                &&& r == (if old(self)@.contains_key(k) {
                    Some(old(self)@[k])
                } else {
                    None
                })
            },
    {
        self.dirty.insert(k, v)
    }

    /// Removes `k`; returns the value that it had, if any.
    pub fn remove(&mut self, k: &K) -> (r: Option<V>)
        ensures
            obeys_key_model::<K>() ==> {
                &&& final(self)@ == old(self)@.remove(*k)
                &&& r == (if old(self)@.contains_key(*k) {
                    Some(old(self)@[*k])
                } else {
                    None
                })
            },
    {
        self.dirty.remove(k)
    }

    /// The number of entries.
    pub fn len(&self) -> (r: usize)
        ensures
            self@.dom().finite(),
            obeys_key_model::<K>() ==> r == self@.len(),
    {
        self.dirty.len()
    }

    /// There are no entries.
    pub fn is_empty(&self) -> (r: bool)
        ensures
            r == (self@ == Map::<K, V>::empty()),
            r == (self@.len() == 0),
            self@.dom().finite(),
    {
        let r = self.dirty.is_empty();
        proof {
            if !r {
                let k = choose|k: K| self@.dom().contains(k);
                assert(!Map::<K, V>::empty().dom().contains(k));
            }
        }
        assert(r ==> self@ =~= Map::<K, V>::empty());
        r
    }

    /// Removes every entry.
    pub fn clear(&mut self)
        ensures
            final(self)@ == Map::<K, V>::empty(),
    {
        self.dirty.clear()
    }

    /// Gives back spare capacity; the entries are kept.
    pub fn shrink_to_fit(&mut self)
        ensures
            final(self)@ == old(self)@,
    {
        shrink_hash_map(&mut self.dirty)
    }

    /// The value of `k`, if any.
    pub fn get(&self, k: &K) -> (r: Option<&V>)
        ensures
            obeys_key_model::<K>() ==> r == (if self@.contains_key(*k) {
                Some(&self@[*k])
            } else {
                None
            }),
    {
        self.dirty.get(k)
    }

    /// A reference to the value of `k` that may change it in place, if `k`
    /// has one.
    pub fn get_mut(&mut self, k: &K) -> (r: Option<&mut V>)
        ensures
            obeys_key_model::<K>() ==> (match r {
                Some(v) => {
                    &&& old(self)@.contains_key(*k)
                    &&& *v == old(self)@[*k]
                    &&& final(self)@ == old(self)@.insert(*k, *final(v))
                },
                None => !old(self)@.contains_key(*k) && final(self)@ == old(self)@,
            }),
    {
        hash_map_get_mut(&mut self.dirty, k)
    }
}

} // verus!
