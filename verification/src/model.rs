//! The mathematical model of a slot store: a sequence of key/value entries
//! with pairwise-distinct keys, together with the transitions that the
//! executable operations perform and the laws those transitions obey.
use vstd::prelude::*;
use vstd::std_specs::cmp::PartialEqSpec;

verus! {

/// True of a key type whose executable equality test decides mathematical
/// equality. The integer types are such types; the store's lookups assume
/// one, since they compare keys to decide which slot to return.
pub open spec fn eq_decides_equality<K: PartialEqSpec>() -> bool {
    &&& K::obeys_eq_spec()
    &&& forall|a: K, b: K| #[trigger] a.eq_spec(&b) <==> a == b
}

/// True when some slot of `s` holds an entry for key `k`.
pub open spec fn has_key<K, V>(s: Seq<(K, V)>, k: K) -> bool {
    exists|i: int| 0 <= i < s.len() && (#[trigger] s[i]).0 == k
}

/// The slot holding the entry for `k`; meaningful only when `has_key(s, k)`
/// holds and the keys of `s` are distinct.
pub open spec fn slot_of<K, V>(s: Seq<(K, V)>, k: K) -> int {
    choose|i: int| 0 <= i < s.len() && (#[trigger] s[i]).0 == k
}

/// The value stored for `k`; meaningful only when `has_key(s, k)` holds.
pub open spec fn value_of<K, V>(s: Seq<(K, V)>, k: K) -> V {
    s[slot_of(s, k)].1
}

/// No two slots hold the same key.
pub open spec fn distinct_keys<K, V>(s: Seq<(K, V)>) -> bool {
    forall|i: int, j: int| 0 <= i < j < s.len() ==> (#[trigger] s[i]).0 != (#[trigger] s[j]).0
}

/// The transition performed by an insert-if-absent operation: a no-op on a
/// present key, an append to a fresh slot on an absent one. Appending is what
/// keeps every existing slot (and hence every handle given out earlier) intact.
pub open spec fn put_step<K, V>(s: Seq<(K, V)>, k: K, v: V) -> Seq<(K, V)> {
    if has_key(s, k) {
        s
    } else {
        s.push((k, v))
    }
}

/// The transition performed by a removal: the slot of `k` disappears and the
/// slots behind it shift down, which is why removal invalidates handles.
pub open spec fn remove_step<K, V>(s: Seq<(K, V)>, k: K) -> Seq<(K, V)> {
    if has_key(s, k) {
        s.remove(slot_of(s, k))
    } else {
        s
    }
}

/// A whole sequence of insert-if-absent operations, applied first to last.
pub open spec fn put_all<K, V>(s: Seq<(K, V)>, ops: Seq<(K, V)>) -> Seq<(K, V)>
    decreases ops.len(),
{
    if ops.len() == 0 {
        s
    } else {
        put_all(put_step(s, ops[0].0, ops[0].1), ops.drop_first())
    }
}

/// With distinct keys, any slot holding `k` is the slot of `k`.
pub proof fn lemma_slot_unique<K, V>(s: Seq<(K, V)>, k: K, i: int)
    requires
        distinct_keys(s),
        0 <= i < s.len(),
        s[i].0 == k,
    ensures
        has_key(s, k),
        slot_of(s, k) == i,
        value_of(s, k) == s[i].1,
{
    assert(has_key(s, k));
    let j = slot_of(s, k);
    assert(0 <= j < s.len() && s[j].0 == k);
    if i < j {
        assert(s[i].0 != s[j].0);
    } else if j < i {
        assert(s[j].0 != s[i].0);
    }
}

/// What one insert-if-absent transition does: it preserves distinctness,
/// makes `k` present, and leaves the slot and value of every key that was
/// already present exactly where they were.
pub proof fn lemma_put_step<K, V>(s: Seq<(K, V)>, k: K, v: V)
    requires
        distinct_keys(s),
    ensures
        distinct_keys(put_step(s, k, v)),
        has_key(put_step(s, k, v), k),
        has_key(s, k) ==> put_step(s, k, v) == s,
        !has_key(s, k) ==> put_step(s, k, v) == s.push((k, v)) && slot_of(put_step(s, k, v), k)
            == s.len() && value_of(put_step(s, k, v), k) == v,
        forall|k2: K| #[trigger]
            has_key(s, k2) ==> has_key(put_step(s, k, v), k2) && slot_of(put_step(s, k, v), k2)
                == slot_of(s, k2) && value_of(put_step(s, k, v), k2) == value_of(s, k2),
        forall|k2: K| #[trigger] has_key(put_step(s, k, v), k2) ==> has_key(s, k2) || k2 == k,
{
    if has_key(s, k) {
    } else {
        let t = s.push((k, v));
        assert(t[s.len() as int] == (k, v));
        assert forall|i: int, j: int| 0 <= i < j < t.len() implies (#[trigger] t[i]).0 != (
        #[trigger] t[j]).0 by {
            assert(t[i] == s[i]);
            if j < s.len() {
                assert(t[j] == s[j]);
            } else {
                if s[i].0 == k {
                    assert(has_key(s, k));
                }
            }
        }
        lemma_slot_unique(t, k, s.len() as int);
        assert forall|k2: K| #[trigger] has_key(s, k2) implies has_key(t, k2) && slot_of(t, k2)
            == slot_of(s, k2) && value_of(t, k2) == value_of(s, k2) by {
            let i = choose|i: int| 0 <= i < s.len() && (#[trigger] s[i]).0 == k2;
            assert(t[i] == s[i]);
            lemma_slot_unique(t, k2, i);
            lemma_slot_unique(s, k2, i);
        }
        assert forall|k2: K| #[trigger] has_key(t, k2) implies has_key(s, k2) || k2 == k by {
            let i = choose|i: int| 0 <= i < t.len() && (#[trigger] t[i]).0 == k2;
            if i < s.len() {
                assert(s[i].0 == k2);
                assert(has_key(s, k2));
            }
        }
    }
}

/// What one removal transition does: it preserves distinctness, makes `k`
/// absent, and keeps every other key present with its value unchanged
/// (though its slot may shift: removal is the invalidation boundary).
pub proof fn lemma_remove_step<K, V>(s: Seq<(K, V)>, k: K)
    requires
        distinct_keys(s),
    ensures
        distinct_keys(remove_step(s, k)),
        !has_key(remove_step(s, k), k),
        has_key(s, k) ==> remove_step(s, k).len() == s.len() - 1,
        !has_key(s, k) ==> remove_step(s, k) == s,
        forall|k2: K|
            #![trigger has_key(remove_step(s, k), k2)]
            #![trigger has_key(s, k2)]
            k2 != k ==> (has_key(remove_step(s, k), k2) <==> has_key(s, k2)) && (has_key(s, k2)
                ==> value_of(remove_step(s, k), k2) == value_of(s, k2)),
{
    if has_key(s, k) {
        let n = slot_of(s, k);
        assert(0 <= n < s.len() && s[n].0 == k);
        let t = s.remove(n);
        s.remove_ensures(n);
        assert forall|i: int, j: int| 0 <= i < j < t.len() implies (#[trigger] t[i]).0 != (
        #[trigger] t[j]).0 by {
            let i0: int = if i < n {
                i
            } else {
                i + 1
            };
            let j0: int = if j < n {
                j
            } else {
                j + 1
            };
            assert(t[i] == s[i0]);
            assert(t[j] == s[j0]);
        }
        assert forall|i: int| 0 <= i < t.len() implies (#[trigger] t[i]).0 != k by {
            let i0: int = if i < n {
                i
            } else {
                i + 1
            };
            assert(t[i] == s[i0]);
            if s[i0].0 == k {
                lemma_slot_unique(s, k, i0);
            }
        }
        assert(!has_key(t, k));
        assert forall|k2: K| k2 != k && #[trigger] has_key(s, k2) implies has_key(t, k2) && (
        value_of(t, k2) == value_of(s, k2)) by {
            let i0 = choose|i: int| 0 <= i < s.len() && (#[trigger] s[i]).0 == k2;
            lemma_slot_unique(s, k2, i0);
            let i: int = if i0 < n {
                i0
            } else {
                i0 - 1
            };
            assert(t[i] == s[i0]);
            lemma_slot_unique(t, k2, i);
        }
        assert forall|k2: K| k2 != k && #[trigger] has_key(t, k2) implies has_key(s, k2) by {
            let i = choose|i: int| 0 <= i < t.len() && (#[trigger] t[i]).0 == k2;
            let i0: int = if i < n {
                i
            } else {
                i + 1
            };
            assert(t[i] == s[i0]);
            assert(has_key(s, k2));
        }
    }
}

/// Reference identity stability: once `k` is stored, any number of further
/// insert-if-absent operations (for `k` itself or for other keys) leave both
/// the slot of `k` and the value stored for `k` exactly as they were.
pub proof fn lemma_reference_identity_stable<K, V>(s: Seq<(K, V)>, ops: Seq<(K, V)>, k: K)
    requires
        distinct_keys(s),
        has_key(s, k),
    ensures
        distinct_keys(put_all(s, ops)),
        has_key(put_all(s, ops), k),
        slot_of(put_all(s, ops), k) == slot_of(s, k),
        value_of(put_all(s, ops), k) == value_of(s, k),
    decreases ops.len(),
{
    if ops.len() == 0 {
    } else {
        lemma_put_step(s, ops[0].0, ops[0].1);
        lemma_reference_identity_stable(put_step(s, ops[0].0, ops[0].1), ops.drop_first(), k);
    }
}

/// First write wins: inserting an absent key stores its value, and a second
/// insertion for the same key, whatever value it offers, changes nothing.
pub proof fn lemma_first_write_wins<K, V>(s: Seq<(K, V)>, k: K, v1: V, v2: V)
    requires
        distinct_keys(s),
        !has_key(s, k),
    ensures
        has_key(put_step(s, k, v1), k),
        value_of(put_step(s, k, v1), k) == v1,
        put_step(put_step(s, k, v1), k, v2) == put_step(s, k, v1),
        value_of(put_step(put_step(s, k, v1), k, v2), k) == v1,
{
    lemma_put_step(s, k, v1);
}

/// Idempotent hit path: an insert-if-absent on a key that is already present
/// is a no-op, however often it is repeated and whatever value it offers.
pub proof fn lemma_hit_is_noop<K, V>(s: Seq<(K, V)>, k: K, v: V)
    requires
        has_key(s, k),
    ensures
        put_step(s, k, v) == s,
{
}

/// Removal resets the cycle: after removing `k`, the store behaves as if `k`
/// had never been inserted, so a fresh insertion stores the fresh value.
pub proof fn lemma_remove_resets<K, V>(s: Seq<(K, V)>, k: K, v: V)
    requires
        distinct_keys(s),
    ensures
        !has_key(remove_step(s, k), k),
        has_key(put_step(remove_step(s, k), k, v), k),
        value_of(put_step(remove_step(s, k), k, v), k) == v,
{
    lemma_remove_step(s, k);
    lemma_put_step(remove_step(s, k), k, v);
}

} // verus!
