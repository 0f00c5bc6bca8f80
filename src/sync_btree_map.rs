//! A map ordered by key, changed through `&mut` and read through `&`.
use std::collections::btree_map;
use std::collections::BTreeMap;
use std::collections::HashMap;
use std::hash::Hash;
use std::sync::Arc;
use vstd::laws_cmp::obeys_cmp;
use vstd::prelude::*;
use vstd::std_specs::cmp::OrdSpec;
use vstd::std_specs::hash::obeys_key_model;
use vstd::std_specs::iter::IteratorSpec;

verus! {

broadcast use vstd::std_specs::btree::group_btree_axioms;

/// A map from keys to values whose entries are visited in increasing key
/// order.
///
/// Its contracts speak of its contents as a `Map`; they hold for every key
/// type whose `Ord` agrees with its `==` and is a total order, as the
/// standard library's integer types are (`obeys_cmp`).
pub struct SyncBtreeMapImpl<K: Eq + Hash + Clone + Ord, V> {
    map: BTreeMap<K, V>,
}

/// The ordered map under its short name.
pub type SyncBtreeMap<K, V> = SyncBtreeMapImpl<K, V>;

impl<K: Eq + Hash + Clone + Ord, V> View for SyncBtreeMapImpl<K, V> {
    type V = Map<K, V>;

    closed spec fn view(&self) -> Map<K, V> {
        self.map@
    }
}

#[verifier::external_type_specification]
#[verifier::external_body]
#[verifier::reject_recursive_types(K)]
#[verifier::reject_recursive_types(V)]
pub struct ExIterMut<'a, K: 'a, V: 'a>(btree_map::IterMut<'a, K, V>);

/// Relies on std's `BTreeMap::iter_mut`: the entries in increasing key
/// order, each value changeable in place; the keys stay as they are.
#[verifier::external_body]
fn btree_map_iter_mut<'a, K, V>(m: &'a mut BTreeMap<K, V>) -> (r: btree_map::IterMut<'a, K, V>)
    ensures
        final(m)@.dom() == old(m)@.dom(),
{
    m.iter_mut()
}

/// Relies on std's `BTreeMap::get_mut`: a reference to the value of `k`
/// that may change it in place, if `k` has one.
#[verifier::external_body]
fn btree_map_get_mut<'a, K: Ord, V>(m: &'a mut BTreeMap<K, V>, k: &K) -> (r: Option<&'a mut V>)
    ensures
        obeys_cmp::<K>() ==> (match r {
            Some(v) => {
                &&& old(m)@.contains_key(*k)
                &&& *v == old(m)@[*k]
                &&& final(m)@ == old(m)@.insert(*k, *final(v))
            },
            None => !old(m)@.contains_key(*k) && final(m)@ == old(m)@,
        }),
{
    m.get_mut(k)
}

/// Relies on std's `Vec::from_iter` over a `HashMap`'s entries: each entry
/// of the map once, in an unspecified order.
#[verifier::external_body]
fn hash_map_entries<K: Eq + Hash, V>(m: HashMap<K, V>) -> (r: Vec<(K, V)>)
    ensures
        obeys_key_model::<K>() ==> {
            &&& forall|i: int|
                0 <= i < r@.len() ==> m@.contains_key(#[trigger] r@[i].0) && m@[r@[i].0] == r@[i].1
            &&& forall|k: K| #[trigger] m@.contains_key(k) ==> exists|i: int| 0 <= i < r@.len() && r@[i].0 == k
        },
{
    Vec::from_iter(m)
}

/// The map that the entries `s` make, an earlier entry winning over a later
/// one with the same key.
pub open spec fn map_of<K, V>(s: Seq<(K, V)>) -> Map<K, V>
    decreases s.len(),
{
    if s.len() == 0 {
        Map::empty()
    } else {
        map_of(s.drop_first()).insert(s[0].0, s[0].1)
    }
}

proof fn lemma_map_of_agrees<K, V>(s: Seq<(K, V)>, m: Map<K, V>)
    requires
        forall|i: int| 0 <= i < s.len() ==> m.contains_key(#[trigger] s[i].0) && m[s[i].0] == s[i].1,
    ensures
        forall|k: K| #[trigger] map_of(s).contains_key(k) ==> m.contains_key(k) && map_of(s)[k] == m[k],
        forall|i: int| 0 <= i < s.len() ==> map_of(s).contains_key(#[trigger] s[i].0),
    decreases s.len(),
{
    if s.len() > 0 {
        let t = s.drop_first();
        assert forall|i: int| 0 <= i < t.len() implies m.contains_key(#[trigger] t[i].0) && m[t[i].0] == t[i].1 by {
            assert(t[i] == s[i + 1]);
        }
        lemma_map_of_agrees(t, m);
        assert(m.contains_key(s[0].0) && m[s[0].0] == s[0].1);
        assert forall|k: K| #[trigger] map_of(s).contains_key(k) implies m.contains_key(k) && map_of(s)[k] == m[k] by {
            if k != s[0].0 {
                assert(map_of(t).contains_key(k));
            }
        }
        assert forall|i: int| 0 <= i < s.len() implies map_of(s).contains_key(#[trigger] s[i].0) by {
            if i > 0 {
                assert(t[i - 1] == s[i]);
            }
        }
    }
}

impl<K: Eq + Hash + Clone + Ord, V> SyncBtreeMapImpl<K, V> {
    /// An empty map behind an `Arc`, to be shared.
    pub fn new_arc() -> (r: Arc<Self>)
        ensures
            r@ == Map::<K, V>::empty(),
    {
        Arc::new(Self::new())
    }

    /// An empty map.
    pub fn new() -> (r: Self)
        ensures
            r@ == Map::<K, V>::empty(),
    {
        Self { map: BTreeMap::new() }
    }

    /// An empty map; an ordered map reserves no room ahead.
    pub fn with_capacity(_capacity: usize) -> (r: Self)
        ensures
            r@ == Map::<K, V>::empty(),
    {
        Self::new()
    }

    /// Maps `k` to `v`; returns the value that `k` had, if any.
    pub fn insert(&mut self, k: K, v: V) -> (r: Option<V>)
        ensures
            obeys_cmp::<K>() ==> {
                &&& final(self)@ == old(self)@.insert(k, v)
                &&& r == (if old(self)@.contains_key(k) {
                    Some(old(self)@[k])
                } else {
                    None
                })
            },
    {
        self.map.insert(k, v)
    }

    /// Removes `k`; returns the value that it had, if any.
    pub fn remove(&mut self, k: &K) -> (r: Option<V>)
        ensures
            obeys_cmp::<K>() ==> {
                &&& final(self)@ == old(self)@.remove(*k)
                &&& r == (if old(self)@.contains_key(*k) {
                    Some(old(self)@[*k])
                } else {
                    None
                })
            },
    {
        self.map.remove(k)
    }

    /// The number of entries.
    pub fn len(&self) -> (r: usize)
        ensures
            self@.dom().finite(),
            obeys_cmp::<K>() ==> r == self@.len(),
    {
        self.map.len()
    }

    /// There are no entries.
    pub fn is_empty(&self) -> (r: bool)
        ensures
            r == (self@ == Map::<K, V>::empty()),
            r == (self@.len() == 0),
            self@.dom().finite(),
    {
        let r = self.map.is_empty();
        proof {
            if !r {
                let k = choose|k: K| self@.dom().contains(k);
                assert(!Map::<K, V>::empty().dom().contains(k));
            }
        }
        assert(r ==> self@ =~= Map::<K, V>::empty());
        r
    }

    /// Removes every entry.
    pub fn clear(&mut self)
        ensures
            final(self)@ == Map::<K, V>::empty(),
    {
        self.map.clear()
    }

    /// Does nothing: an ordered map holds no spare capacity.
    pub fn shrink_to_fit(&self)
        ensures
            true,
    {
    }

    /// A map with the entries of `map`.
    pub fn from(map: HashMap<K, V>) -> (r: Self)
        ensures
            obeys_key_model::<K>() && obeys_cmp::<K>() ==> r@ == map@,
    {
        let ghost m = map@;
        let mut entries = hash_map_entries(map);
        let ghost all = entries@;
        let mut s = Self::new();
        while entries.len() > 0
            invariant
                entries@ == all.take(entries@.len() as int),
                entries@.len() <= all.len(),
                obeys_cmp::<K>() ==> s@ == map_of(all.skip(entries@.len() as int)),
            decreases entries@.len(),
        {
            let ghost n = entries@.len() as int;
            let (k, v) = entries.pop().unwrap();
            proof {
                assert(all[n - 1] == (k, v));
                assert(all.skip(n - 1).drop_first() =~= all.skip(n));
                assert(all.skip(n - 1)[0] == (k, v));
                assert(entries@ =~= all.take(n - 1));
            }
            s.insert(k, v);
        }
        proof {
            assert(all.skip(0) =~= all);
            if obeys_key_model::<K>() && obeys_cmp::<K>() {
                lemma_map_of_agrees(all, m);
                assert forall|k: K| m.contains_key(k) implies #[trigger] map_of(all).contains_key(k) by {
                    let i = choose|i: int| 0 <= i < all.len() && all[i].0 == k;
                }
                assert(s@ =~= m);
            }
        }
        s
    }

    /// The value of `k`, if any.
    pub fn get(&self, k: &K) -> (r: Option<&V>)
        ensures
            obeys_cmp::<K>() ==> r == (if self@.contains_key(*k) {
                Some(&self@[*k])
            } else {
                None
            }),
    {
        self.map.get(k)
    }

    /// A reference to the value of `k` that may change it in place, if `k`
    /// has one.
    pub fn get_mut(&mut self, k: &K) -> (r: Option<&mut V>)
        ensures
            obeys_cmp::<K>() ==> (match r {
                Some(v) => {
                    &&& old(self)@.contains_key(*k)
                    &&& *v == old(self)@[*k]
                    &&& final(self)@ == old(self)@.insert(*k, *final(v))
                },
                None => !old(self)@.contains_key(*k) && final(self)@ == old(self)@,
            }),
    {
        btree_map_get_mut(&mut self.map, k)
    }

    /// The entries in increasing key order, each value changeable in place;
    /// the keys stay as they are.
    pub fn iter_mut(&mut self) -> (r: btree_map::IterMut<'_, K, V>)
        ensures
            final(self)@.dom() == old(self)@.dom(),
    {
        btree_map_iter_mut(&mut self.map)
    }

    /// The entries in increasing key order.
    pub fn iter(&self) -> (r: btree_map::Iter<'_, K, V>)
        ensures
            obeys_cmp::<K>() ==> {
                &&& r.remaining().len() == self@.len()
                &&& forall|k: K|
                    #[trigger] self@.contains_key(k) ==> exists|i: int|
                        0 <= i < r.remaining().len() && *r.remaining()[i].0 == k
                &&& forall|i: int|
                    0 <= i < r.remaining().len() ==> self@.contains_key(*r.remaining()[i].0)
                        && self@[*r.remaining()[i].0] == *r.remaining()[i].1
                &&& forall|i: int, j: int|
                    0 <= i < j < r.remaining().len() ==> (*r.remaining()[i].0).cmp_spec(
                        &*r.remaining()[j].0,
                    ) is Less
            },
    {
        let r = self.map.iter();
        proof {
            vstd::std_specs::btree::axiom_spec_btree_map_iter(&self.map);
            if obeys_cmp::<K>() {
                assert forall|k: K| #[trigger] self@.contains_key(k) implies exists|i: int|
                    0 <= i < r.remaining().len() && *r.remaining()[i].0 == k by {
                    assert(r.remaining().contains((&k, &self@[k])));
                    let i = choose|i: int| 0 <= i < r.remaining().len() && r.remaining()[i] == (&k, &self@[k]);
                    assert(*r.remaining()[i].0 == k);
                }
                let ks = r.remaining().map_values(|kv: (&K, &V)| *kv.0);
                assert(vstd::std_specs::btree::increasing_seq(ks));
                assert forall|i: int, j: int| 0 <= i < j < r.remaining().len() implies (
                *r.remaining()[i].0).cmp_spec(&*r.remaining()[j].0) is Less by {
                    assert(ks[i] == *r.remaining()[i].0);
                    assert(ks[j] == *r.remaining()[j].0);
                }
            }
        }
        r
    }
}

} // verus!
