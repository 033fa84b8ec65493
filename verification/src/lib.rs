//! A memoizing cache container: a key-to-value store whose entries, once
//! stored, keep their slot and their contents across later insertions of
//! other keys, until an explicit removal or clear.
pub mod cached;
pub mod caching;
pub mod model;
pub mod store;

pub use cached::CachedValue;
pub use caching::AsyncCachingMap;
pub use caching::Produced;
pub use store::StableSlotStore;

use crate::model::{distinct_keys, eq_decides_equality, has_key, put_step, remove_step, value_of};
use vstd::prelude::*;
use vstd::std_specs::cmp::PartialEqSpec;

verus! {

/// A lazy value mapping: one fixed key-to-value producer plus a caching
/// store. The producer runs at most once per key: the first access for a
/// key computes and stores its value, and every later access returns the
/// stored value, until an exclusive removal or clear restarts the cycle
/// for that key.
#[verifier::reject_recursive_types(V)]
pub struct LazyMap<K, V, F> where F: Fn(K) -> V {
    f: F,
    store: StableSlotStore<K, V>,
}

impl<K, V, F> View for LazyMap<K, V, F> where F: Fn(K) -> V {
    type V = Seq<(K, V)>;

    closed spec fn view(&self) -> Seq<(K, V)> {
        self.store@
    }
}

impl<K: Copy + PartialEq + PartialEqSpec, V, F> LazyMap<K, V, F> where F: Fn(K) -> V {
    /// Well-formedness: no key occupies two slots.
    pub open spec fn wf(&self) -> bool {
        distinct_keys(self@)
    }

    /// The fixed producer this map was created with.
    pub closed spec fn producer(&self) -> F {
        self.f
    }

    /// Create a LazyMap from its producer; the cache starts empty.
    pub fn new(f: F) -> (r: Self)
        ensures
            r.wf(),
            r@ == Seq::<(K, V)>::empty(),
            r.producer() == f,
    {
        LazyMap { f, store: StableSlotStore::new() }
    }

    /// Look `key` up, computing and storing its value first if this is the
    /// first access. On a hit the producer is not called and the stored
    /// value is returned unchanged: per key, the producer runs at most
    /// once between removals, and the first computed value wins.
    pub fn get(&mut self, key: K) -> (r: &V)
        requires
            old(self).wf(),
            eq_decides_equality::<K>(),
            !has_key(old(self)@, key) ==> call_requires(old(self).producer(), (key,)),
        ensures
            final(self).wf(),
            final(self).producer() == old(self).producer(),
            has_key(final(self)@, key),
            *r == value_of(final(self)@, key),
            has_key(old(self)@, key) ==> final(self)@ == old(self)@ && *r == value_of(
                old(self)@,
                key,
            ),
            !has_key(old(self)@, key) ==> call_ensures(old(self).producer(), (key,), *r)
                && final(self)@ == put_step(old(self)@, key, *r),
    {
        if self.store.find(key).is_none() {
            let value = (self.f)(key);
            self.store.insert_if_absent(key, value);
        }
        self.store.get(key).unwrap()
    }

    /// Exclusive removal: take the entry for `key` out and return its
    /// value; the next `get` on `key` will run the producer again.
    pub fn remove(&mut self, key: &K) -> (r: Option<V>)
        requires
            old(self).wf(),
            eq_decides_equality::<K>(),
        ensures
            final(self).wf(),
            final(self).producer() == old(self).producer(),
            final(self)@ == remove_step(old(self)@, *key),
            r is Some <==> has_key(old(self)@, *key),
            (match r {
                Some(v) => v == value_of(old(self)@, *key),
                None => final(self)@ == old(self)@,
            }),
            !has_key(final(self)@, *key),
    {
        self.store.remove(*key)
    }

    /// Exclusive clear: afterwards the map is empty and every key reports
    /// absent, so the producer will run again on any key.
    pub fn clear(&mut self)
        ensures
            final(self).wf(),
            final(self).producer() == old(self).producer(),
            final(self)@.len() == 0,
            forall|k: K| !has_key(final(self)@, k),
    {
        self.store.clear();
    }

    /// How many entries have been computed and stored.
    pub fn len(&self) -> (r: usize)
        ensures
            r == self@.len(),
    {
        self.store.len()
    }
}

} // verus!
