//! The insert-if-absent capability surface over the stable slot store:
//! store a value for a key unless one is already there, or let a producer
//! compute it on a miss, with the first value written for a key winning for
//! as long as the entry lives.
use crate::cached::CachedValue;
use crate::model::{
    distinct_keys, eq_decides_equality, has_key, put_step, remove_step, slot_of, value_of,
};
use crate::store::StableSlotStore;
use vstd::prelude::*;
use vstd::std_specs::cmp::PartialEqSpec;

verus! {

/// What a `cached_cow` producer hands back: either a value of its own that
/// the cache must not store, or an owned value to be stored for the key.
pub enum Produced<V> {
    /// Pass the value through untouched; nothing is inserted.
    Borrowed(V),
    /// Store the value for the key and hand out its slot.
    Owned(V),
}

/// A caching map: a key-to-value store that accepts new entries while never
/// replacing existing ones, so the value stored first for a key, and the
/// slot holding it, survive every later insertion until an exclusive
/// removal or clear.
///
/// Not safe for uncoordinated concurrent use: callers in a concurrent
/// setting must arrange a single-writer discipline around it.
pub struct AsyncCachingMap<K, V> {
    store: StableSlotStore<K, V>,
    full_clone: bool,
}

impl<K, V> View for AsyncCachingMap<K, V> {
    type V = Seq<(K, V)>;

    closed spec fn view(&self) -> Seq<(K, V)> {
        self.store@
    }
}

impl<K: Copy + PartialEq + PartialEqSpec, V> AsyncCachingMap<K, V> {
    /// Well-formedness: no key occupies two slots.
    pub open spec fn wf(&self) -> bool {
        distinct_keys(self@)
    }

    /// The configured cloning strategy (see `with_full_clone`).
    pub closed spec fn full_clone_mode(&self) -> bool {
        self.full_clone
    }

    /// Create a new caching map; equivalent to `with_full_clone(true)`.
    pub fn new() -> (r: Self)
        ensures
            r.wf(),
            r@ == Seq::<(K, V)>::empty(),
            r.full_clone_mode(),
    {
        Self::with_full_clone(true)
    }

    /// Create a new caching map with a choice of cloning strategy: a full
    /// clone duplicates the entries, a non-full clone starts empty, which
    /// can be the better behaviour for a cache.
    pub fn with_full_clone(full_clone: bool) -> (r: Self)
        ensures
            r.wf(),
            r@ == Seq::<(K, V)>::empty(),
            r.full_clone_mode() == full_clone,
    {
        AsyncCachingMap { store: StableSlotStore::new(), full_clone }
    }

    /// Whether a clone of this map duplicates the entries.
    pub fn full_clone(&self) -> (r: bool)
        ensures
            r == self.full_clone_mode(),
    {
        self.full_clone
    }

    /// Choose whether a clone of this map duplicates the entries.
    pub fn set_full_clone(&mut self, full_clone: bool)
        ensures
            final(self).full_clone_mode() == full_clone,
            final(self)@ == old(self)@,
    {
        self.full_clone = full_clone;
    }

    /// How many entries are cached.
    pub fn len(&self) -> (r: usize)
        ensures
            r == self@.len(),
    {
        self.store.len()
    }

    /// Shared lookup: the value cached for `key`, if any.
    pub fn get(&self, key: K) -> (r: Option<&V>)
        requires
            self.wf(),
            eq_decides_equality::<K>(),
        ensures
            r is Some <==> has_key(self@, key),
            (match r {
                Some(v) => *v == value_of(self@, key),
                None => true,
            }),
    {
        self.store.get(key)
    }

    /// The value held by slot `slot`. Slots are the identity witnesses
    /// carried by `New` and `Old` outcomes; they stay valid until a removal
    /// or clear.
    pub fn value_at(&self, slot: usize) -> (r: &V)
        requires
            slot < self@.len(),
        ensures
            *r == self@[slot as int].1,
    {
        self.store.value_at(slot)
    }

    /// Offer `value` for `key`. On a miss the value is stored and the
    /// outcome is `New` with its fresh slot; on a hit the offered value is
    /// discarded, the stored one stays, and the outcome is `Old` with the
    /// existing slot. No existing entry moves or changes either way.
    pub fn cache(&mut self, key: K, value: V) -> (r: CachedValue<V>)
        requires
            old(self).wf(),
            eq_decides_equality::<K>(),
        ensures
            final(self).wf(),
            final(self).full_clone_mode() == old(self).full_clone_mode(),
            final(self)@ == put_step(old(self)@, key, value),
            has_key(final(self)@, key),
            slot_of(final(self)@, key) == (if has_key(old(self)@, key) {
                slot_of(old(self)@, key)
            } else {
                old(self)@.len() as int
            }),
            !has_key(old(self)@, key) ==> r == CachedValue::<V>::New(old(self)@.len() as usize)
                && value_of(final(self)@, key) == value,
            has_key(old(self)@, key) ==> r == CachedValue::<V>::Old(
                slot_of(old(self)@, key) as usize,
            ) && final(self)@ == old(self)@,
    {
        let (slot, inserted) = self.store.insert_if_absent(key, value);
        if inserted {
            CachedValue::New(slot)
        } else {
            CachedValue::Old(slot)
        }
    }

    /// Look `key` up and, only on a miss, call `producer` once and store
    /// what it returns. On a hit the producer is not called and the outcome
    /// is `Old` with the existing slot; the first value stored for a key is
    /// the one every later call sees.
    pub fn cached<F: Fn(K) -> V>(&mut self, key: K, producer: F) -> (r: CachedValue<V>)
        requires
            old(self).wf(),
            eq_decides_equality::<K>(),
            !has_key(old(self)@, key) ==> call_requires(producer, (key,)),
        ensures
            final(self).wf(),
            final(self).full_clone_mode() == old(self).full_clone_mode(),
            has_key(final(self)@, key),
            slot_of(final(self)@, key) == (if has_key(old(self)@, key) {
                slot_of(old(self)@, key)
            } else {
                old(self)@.len() as int
            }),
            has_key(old(self)@, key) ==> r == CachedValue::<V>::Old(
                slot_of(old(self)@, key) as usize,
            ) && final(self)@ == old(self)@,
            !has_key(old(self)@, key) ==> r == CachedValue::<V>::New(old(self)@.len() as usize)
                && call_ensures(producer, (key,), value_of(final(self)@, key)) && final(self)@
                == put_step(old(self)@, key, value_of(final(self)@, key)),
    {
        match self.store.find(key) {
            Some(slot) => CachedValue::Old(slot),
            None => {
                let value = producer(key);
                let (slot, _) = self.store.insert_if_absent(key, value);
                CachedValue::New(slot)
            },
        }
    }

    /// Look `key` up and, only on a miss, call `producer` once. A produced
    /// `Borrowed` value is passed through as `Ext` without touching the
    /// store; a produced `Owned` value is stored and the outcome is `New`
    /// with its fresh slot. On a hit the producer is not called and the
    /// outcome is `Old` with the existing slot.
    pub fn cached_cow<F: Fn(K) -> Produced<V>>(&mut self, key: K, producer: F) -> (r: CachedValue<
        V,
    >)
        requires
            old(self).wf(),
            eq_decides_equality::<K>(),
            !has_key(old(self)@, key) ==> call_requires(producer, (key,)),
        ensures
            final(self).wf(),
            final(self).full_clone_mode() == old(self).full_clone_mode(),
            has_key(old(self)@, key) ==> r == CachedValue::<V>::Old(
                slot_of(old(self)@, key) as usize,
            ) && final(self)@ == old(self)@,
            !has_key(old(self)@, key) && has_key(final(self)@, key) ==> slot_of(final(self)@, key)
                == old(self)@.len() as int,
            !has_key(old(self)@, key) ==> exists|p: Produced<V>|
                #[trigger] call_ensures(producer, (key,), p) && (match p {
                    Produced::Borrowed(v) => r == CachedValue::<V>::Ext(v) && final(self)@ == old(
                        self,
                    )@,
                    Produced::Owned(v) => r == CachedValue::<V>::New(old(self)@.len() as usize)
                        && final(self)@ == put_step(old(self)@, key, v) && value_of(
                        final(self)@,
                        key,
                    ) == v,
                }),
    {
        match self.store.find(key) {
            Some(slot) => CachedValue::Old(slot),
            None => match producer(key) {
                Produced::Borrowed(value) => CachedValue::Ext(value),
                Produced::Owned(value) => {
                    let (slot, _) = self.store.insert_if_absent(key, value);
                    CachedValue::New(slot)
                },
            },
        }
    }

    /// Exclusive removal: take the entry for `key` out and return its
    /// value. Slot handles obtained earlier are invalidated.
    pub fn remove(&mut self, key: K) -> (r: Option<V>)
        requires
            old(self).wf(),
            eq_decides_equality::<K>(),
        ensures
            final(self).wf(),
            final(self).full_clone_mode() == old(self).full_clone_mode(),
            final(self)@ == remove_step(old(self)@, key),
            r is Some <==> has_key(old(self)@, key),
            (match r {
                Some(v) => v == value_of(old(self)@, key),
                None => final(self)@ == old(self)@,
            }),
            !has_key(final(self)@, key),
    {
        self.store.remove(key)
    }

    /// Exclusive clear: afterwards the map is empty and every key reports
    /// absent. Slot handles obtained earlier are invalidated.
    pub fn clear(&mut self)
        ensures
            final(self).wf(),
            final(self).full_clone_mode() == old(self).full_clone_mode(),
            final(self)@.len() == 0,
            forall|k: K| !has_key(final(self)@, k),
    {
        self.store.clear();
    }
}

impl<K: Copy + PartialEq + PartialEqSpec, V: Clone> Clone for AsyncCachingMap<K, V> {
    /// Duplicate the map. With full cloning, the entries are copied slot by
    /// slot, each value cloned; otherwise the clone starts out empty, which
    /// merely resets the cache.
    fn clone(&self) -> (r: Self)
        ensures
            r.full_clone_mode() == self.full_clone_mode(),
            !self.full_clone_mode() ==> r@ == Seq::<(K, V)>::empty(),
            self.full_clone_mode() ==> r@.len() == self@.len() && (forall|i: int|
                0 <= i < self@.len() ==> (#[trigger] r@[i]).0 == self@[i].0 && cloned::<V>(
                    self@[i].1,
                    r@[i].1,
                )),
            self.wf() ==> r.wf(),
    {
        AsyncCachingMap {
            store: if self.full_clone {
                self.store.duplicate()
            } else {
                StableSlotStore::new()
            },
            full_clone: self.full_clone,
        }
    }
}

impl<K: Copy + PartialEq + PartialEqSpec, V> Default for AsyncCachingMap<K, V> {
    /// Same as `new`: an empty map with full cloning enabled.
    fn default() -> (r: Self)
        ensures
            r.wf(),
            r@ == Seq::<(K, V)>::empty(),
            r.full_clone_mode(),
    {
        Self::new()
    }
}

} // verus!
