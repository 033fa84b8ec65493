//! The foundational associative container: an append-only arena of
//! key/value slots plus the guarantee that insertion never disturbs an
//! existing slot. A slot number handed out for a key stays valid, and keeps
//! denoting the same value, until that key is removed or the store is
//! cleared.
use crate::model::{
    distinct_keys, eq_decides_equality, has_key, lemma_put_step, lemma_remove_step,
    lemma_slot_unique, put_step, remove_step, slot_of, value_of,
};
use vstd::prelude::*;
use vstd::std_specs::cmp::PartialEqSpec;

verus! {

/// A key-to-value store over stable slots.
///
/// Entries live in an append-only arena; the slot of an entry never changes
/// while the entry exists. Insert-if-absent never replaces a stored value:
/// the first value written for a key is the one the store keeps until the
/// key is removed. Removal and clearing reorganize the arena, which is the
/// designed invalidation boundary for slot handles, and therefore require
/// exclusive access.
///
/// Keys are assumed cheap to pass by value and to have an equality test
/// that decides mathematical equality (`eq_decides_equality`), as the
/// integer types do.
pub struct StableSlotStore<K, V> {
    entries: Vec<(K, V)>,
}

impl<K, V> View for StableSlotStore<K, V> {
    type V = Seq<(K, V)>;

    closed spec fn view(&self) -> Seq<(K, V)> {
        self.entries@
    }
}

impl<K: Copy + PartialEq + PartialEqSpec, V> StableSlotStore<K, V> {
    /// Well-formedness: no key occupies two slots.
    pub open spec fn wf(&self) -> bool {
        distinct_keys(self@)
    }

    /// Create an empty store.
    pub fn new() -> (r: Self)
        ensures
            r.wf(),
            r@ == Seq::<(K, V)>::empty(),
    {
        StableSlotStore { entries: Vec::new() }
    }

    /// How many entries are stored.
    pub fn len(&self) -> (r: usize)
        ensures
            r == self@.len(),
    {
        self.entries.len()
    }

    /// The slot currently holding `key`, if any.
    pub fn find(&self, key: K) -> (r: Option<usize>)
        requires
            self.wf(),
            eq_decides_equality::<K>(),
        ensures
            r is Some <==> has_key(self@, key),
            (match r {
                Some(i) => i as int == slot_of(self@, key) && i < self@.len() && self@[
                    i as int
                ].0 == key,
                None => true,
            }),
    {
        let n = self.entries.len();
        let mut i: usize = 0;
        while i < n
            invariant
                n == self@.len(),
                i <= n,
                self.wf(),
                eq_decides_equality::<K>(),
                forall|j: int| 0 <= j < i ==> (#[trigger] self@[j]).0 != key,
            decreases n - i,
        {
            if self.entries[i].0 == key {
                proof {
                    lemma_slot_unique(self@, key, i as int);
                }
                return Some(i);
            }
            i += 1;
        }
        None
    }

    /// Shared lookup: the value stored for `key`, if any.
    pub fn get(&self, key: K) -> (r: Option<&V>)
        requires
            self.wf(),
            eq_decides_equality::<K>(),
        ensures
            r is Some <==> has_key(self@, key),
            (match r {
                Some(v) => *v == value_of(self@, key),
                None => true,
            }),
    {
        match self.find(key) {
            Some(i) => Some(&self.entries[i].1),
            None => None,
        }
    }

    /// The value held by slot `slot`. Slots are handed out by
    /// `insert_if_absent` and stay valid until a removal or clear.
    pub fn value_at(&self, slot: usize) -> (r: &V)
        requires
            slot < self@.len(),
        ensures
            *r == self@[slot as int].1,
    {
        &self.entries[slot].1
    }

    /// Insert-if-absent, the conceptually atomic check-then-act primitive.
    ///
    /// If `key` is absent, `value` is stored in a fresh slot at the end of
    /// the arena and `(that_slot, true)` is returned. If `key` is present,
    /// the store is left untouched, `value` is discarded, and
    /// `(existing_slot, false)` is returned: the first write wins. Either
    /// way, no existing slot moves and no stored value changes.
    pub fn insert_if_absent(&mut self, key: K, value: V) -> (r: (usize, bool))
        requires
            old(self).wf(),
            eq_decides_equality::<K>(),
        ensures
            final(self).wf(),
            final(self)@ == put_step(old(self)@, key, value),
            r.1 <==> !has_key(old(self)@, key),
            has_key(final(self)@, key),
            r.0 as int == slot_of(final(self)@, key),
            r.0 < final(self)@.len(),
            r.1 ==> r.0 == old(self)@.len() && value_of(final(self)@, key) == value,
            !r.1 ==> r.0 as int == slot_of(old(self)@, key) && value_of(final(self)@, key)
                == value_of(old(self)@, key),
    {
        match self.find(key) {
            Some(i) => (i, false),
            None => {
                let i = self.entries.len();
                self.entries.push((key, value));
                proof {
                    lemma_put_step(old(self)@, key, value);
                }
                (i, true)
            },
        }
    }

    /// Exclusive removal: take the entry for `key` out of the store and
    /// return its value. The slots behind it shift down, so every slot
    /// handle obtained earlier is invalidated.
    pub fn remove(&mut self, key: K) -> (r: Option<V>)
        requires
            old(self).wf(),
            eq_decides_equality::<K>(),
        ensures
            final(self).wf(),
            final(self)@ == remove_step(old(self)@, key),
            r is Some <==> has_key(old(self)@, key),
            (match r {
                Some(v) => v == value_of(old(self)@, key),
                None => final(self)@ == old(self)@,
            }),
            !has_key(final(self)@, key),
            forall|k2: K|
                k2 != key ==> (#[trigger] has_key(final(self)@, k2) <==> has_key(old(self)@, k2)),
            forall|k2: K|
                k2 != key && #[trigger] has_key(old(self)@, k2) ==> value_of(final(self)@, k2)
                    == value_of(old(self)@, k2),
    {
        proof {
            lemma_remove_step(old(self)@, key);
        }
        match self.find(key) {
            Some(i) => {
                let e = self.entries.remove(i);
                Some(e.1)
            },
            None => None,
        }
    }

    /// An entry-by-entry copy: the same keys in the same slots, each value
    /// a clone of the original one.
    pub fn duplicate(&self) -> (r: Self) where V: Clone
        ensures
            r@.len() == self@.len(),
            forall|i: int|
                0 <= i < self@.len() ==> (#[trigger] r@[i]).0 == self@[i].0 && cloned::<V>(
                    self@[i].1,
                    r@[i].1,
                ),
            self.wf() ==> r.wf(),
    {
        let mut entries: Vec<(K, V)> = Vec::new();
        let n = self.entries.len();
        let mut i: usize = 0;
        while i < n
            invariant
                n == self@.len(),
                i <= n,
                entries@.len() == i,
                forall|j: int|
                    0 <= j < i ==> (#[trigger] entries@[j]).0 == self@[j].0 && cloned::<V>(
                        self@[j].1,
                        entries@[j].1,
                    ),
            decreases n - i,
        {
            let key = self.entries[i].0;
            let value = self.entries[i].1.clone();
            entries.push((key, value));
            i += 1;
        }
        let r = StableSlotStore { entries };
        proof {
            if self.wf() {
                assert forall|i: int, j: int| 0 <= i < j < r@.len() implies (#[trigger] r@[i]).0
                    != (#[trigger] r@[j]).0 by {
                    assert(self@[i].0 != self@[j].0);
                }
            }
        }
        r
    }

    /// Exclusive clear: every entry is dropped and every key reports absent
    /// afterwards. All slot handles obtained earlier are invalidated.
    pub fn clear(&mut self)
        ensures
            final(self).wf(),
            final(self)@ == Seq::<(K, V)>::empty(),
            final(self)@.len() == 0,
            forall|k: K| !has_key(final(self)@, k),
    {
        self.entries.clear();
    }
}

} // verus!
