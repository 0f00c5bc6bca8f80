//! Coroutine-local storage: each coroutine owns a map from keys to values,
//! filled on first access from the key's initializer; an OS thread that
//! runs no coroutine has a map of its own, used in its place.
use std::collections::HashMap;
use std::sync::Arc;
use vstd::prelude::*;

use crate::join::Join;

verus! {

broadcast use vstd::std_specs::hash::group_hash_axioms;

/// The handle of one coroutine: its id, optional name and stack size.
pub struct Coroutine {
    id: u64,
    name: Option<String>,
    stack_size: usize,
}

impl Coroutine {
    /// The coroutine's id.
    pub closed spec fn id_spec(&self) -> u64 {
        self.id
    }

    /// The coroutine's name, if it has one.
    pub closed spec fn name_spec(&self) -> Option<Seq<char>> {
        match self.name {
            Some(n) => Some(n@),
            None => None,
        }
    }

    /// The size of the coroutine's stack, in bytes.
    pub closed spec fn stack_size_spec(&self) -> usize {
        self.stack_size
    }

    /// A handle for coroutine `id`.
    pub fn new(id: u64, name: Option<String>, stack_size: usize) -> (r: Self)
        ensures
            r.id_spec() == id,
            r.name_spec() == (match name {
                Some(n) => Some(n@),
                None => None::<Seq<char>>,
            }),
            r.stack_size_spec() == stack_size,
    {
        Coroutine { id, name, stack_size }
    }

    /// The coroutine's id.
    pub fn id(&self) -> (r: u64)
        ensures
            r == self.id_spec(),
    {
        self.id
    }

    /// The coroutine's name, if it has one.
    pub fn name(&self) -> (r: Option<&str>)
        ensures
            r matches Some(s) ==> self.name_spec() == Some(s@),
            r is None ==> self.name_spec() is None,
    {
        match &self.name {
            Some(n) => Some(n.as_str()),
            None => None,
        }
    }

    /// The size of the coroutine's stack, in bytes.
    pub fn stack_size(&self) -> (r: usize)
        ensures
            r == self.stack_size_spec(),
    {
        self.stack_size
    }
}

/// The hasher that turns a key's type id into its number: the `u64` that
/// the id hashes itself as is the hash.
pub struct IdHasher {
    id: u64,
}

impl IdHasher {
    /// The hash so far.
    pub closed spec fn id_spec(&self) -> u64 {
        self.id
    }
}

/// The hash `id` with the bytes `b` folded in, eight bits at a time, the
/// last byte lowest.
pub open spec fn fold_bytes(id: u64, b: Seq<u8>) -> u64
    decreases b.len(),
{
    if b.len() == 0 {
        id
    } else {
        (fold_bytes(id, b.drop_last()) << 8u64) | (b.last() as u64)
    }
}

impl Default for IdHasher {
    fn default() -> (r: IdHasher)
        ensures
            r.id_spec() == 0,
    {
        IdHasher { id: 0 }
    }
}

impl std::hash::Hasher for IdHasher {
    /// Bytes other than a whole `u64` are folded in, eight bits at a time.
    fn write(&mut self, bytes: &[u8])
        ensures
            final(self).id_spec() == fold_bytes(old(self).id_spec(), bytes@),
    {
        let ghost start = self.id;
        let mut i: usize = 0;
        while i < bytes.len()
            invariant
                i <= bytes@.len(),
                self.id == fold_bytes(start, bytes@.take(i as int)),
            decreases bytes@.len() - i,
        {
            proof {
                assert(bytes@.take(i + 1).drop_last() =~= bytes@.take(i as int));
            }
            self.id = (self.id << 8u64) | (bytes[i] as u64);
            i = i + 1;
        }
        assert(bytes@.take(bytes@.len() as int) =~= bytes@);
    }

    fn write_u64(&mut self, u: u64)
        ensures
            final(self).id_spec() == u,
    {
        self.id = u;
    }

    fn finish(&self) -> (r: u64)
        ensures
            r == self.id_spec(),
    {
        self.id
    }
}

/// The values of one coroutine (or of one OS thread), by key.
pub struct LocalMap<V> {
    data: HashMap<u64, V>,
}

impl<V> View for LocalMap<V> {
    type V = Map<u64, V>;

    closed spec fn view(&self) -> Map<u64, V> {
        self.data@
    }
}

impl<V> LocalMap<V> {
    /// A map with no values.
    pub fn new() -> (r: Self)
        ensures
            r@ == Map::<u64, V>::empty(),
    {
        LocalMap { data: HashMap::new() }
    }

    /// The value under `key`, if it was set.
    pub fn get(&self, key: u64) -> (r: Option<&V>)
        ensures
            r == (if self@.contains_key(key) {
                Some(&self@[key])
            } else {
                None
            }),
    {
        self.data.get(&key)
    }

    /// The value under `key`, made from `init` on the first access; `init`
    /// is called only then.
    pub fn get_or_init<F: Fn() -> V>(&mut self, key: u64, init: &F) -> (r: &V)
        requires
            init.requires(()),
        ensures
            old(self)@.contains_key(key) ==> final(self)@ == old(self)@,
            !old(self)@.contains_key(key) ==> init.ensures((), final(self)@[key])
                && final(self)@ == old(self)@.insert(key, final(self)@[key]),
            *r == final(self)@[key],
    {
        if !self.data.contains_key(&key) {
            let v = init();
            self.data.insert(key, v);
        }
        let r = self.data.get(&key);
        r.unwrap()
    }

    /// Sets the value under `key`; returns the one it replaced, if any.
    pub fn set(&mut self, key: u64, v: V) -> (r: Option<V>)
        ensures
            final(self)@ == old(self)@.insert(key, v),
            r == (if old(self)@.contains_key(key) {
                Some(old(self)@[key])
            } else {
                None
            }),
    {
        self.data.insert(key, v)
    }
}

/// A key for coroutine-local values: its number, and the initializer `F`
/// that the first access on each coroutine runs.
pub struct LocalKey<F> {
    pub key: u64,
    pub init: F,
}

impl<F> LocalKey<F> {
    /// Runs `f` on this key's value in `map`, the map of the running
    /// coroutine (or of the OS thread, outside any coroutine), initializing
    /// the value first if this is its first access there.
    pub fn with<T, G, R>(&self, map: &mut LocalMap<T>, f: G) -> (r: R)
        where
            F: Fn() -> T,
            G: FnOnce(&T) -> R,
        requires
            (self.init).requires(()),
            forall|v: &T| f.requires((v,)),
        ensures
            old(map)@.contains_key(self.key) ==> final(map)@ == old(map)@,
            !old(map)@.contains_key(self.key) ==> (self.init).ensures((), final(map)@[self.key])
                && final(map)@ == old(map)@.insert(self.key, final(map)@[self.key]),
            f.ensures((&final(map)@[self.key],), r),
    {
        let v = map.get_or_init(self.key, &self.init);
        f(v)
    }
}

/// The storage of one coroutine: its handle, the record that its end is
/// reported to, and its local values.
pub struct CoroutineLocal<V> {
    co: Coroutine,
    join: Arc<Join>,
    local_data: LocalMap<V>,
}

impl<V> CoroutineLocal<V> {
    /// The coroutine's handle.
    pub closed spec fn co_spec(&self) -> Coroutine {
        self.co
    }

    /// The record that the coroutine's end is reported to.
    pub closed spec fn join_spec(&self) -> Arc<Join> {
        self.join
    }

    /// The coroutine's local values.
    pub closed spec fn data_spec(&self) -> Map<u64, V> {
        self.local_data@
    }

    /// Storage for coroutine `co`, with no local values yet.
    pub fn new(co: Coroutine, join: Arc<Join>) -> (r: Box<Self>)
        ensures
            r.co_spec() == co,
            r.join_spec() == join,
            r.data_spec() == Map::<u64, V>::empty(),
    {
        Box::new(CoroutineLocal { co, join, local_data: LocalMap::new() })
    }

    /// The coroutine's handle.
    pub fn get_co(&self) -> (r: &Coroutine)
        ensures
            *r == self.co_spec(),
    {
        &self.co
    }

    /// Another reference to the coroutine's join record.
    pub fn get_join(&self) -> (r: Arc<Join>)
        ensures
            r == self.join_spec(),
    {
        Arc::clone(&self.join)
    }

    /// The coroutine's local values, to read or change; the handle and the
    /// join record stay as they are.
    pub fn local_data(&mut self) -> (r: &mut LocalMap<V>)
        ensures
            r@ == old(self).data_spec(),
            final(self).data_spec() == final(r)@,
            final(self).co_spec() == old(self).co_spec(),
            final(self).join_spec() == old(self).join_spec(),
    {
        &mut self.local_data
    }
}

} // verus!
