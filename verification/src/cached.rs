//! The provenance-tagged result of a caching operation: it records whether
//! the value came from outside the store, was just stored, or was already
//! stored, and for the stored cases it carries the stable slot that holds
//! the value.
use vstd::prelude::*;

verus! {

/// The outcome of a caching operation.
///
/// `Ext` carries a value that was produced outside the store and never
/// inserted. `New` and `Old` carry the stable slot of the entry for the
/// requested key: `New` when the call itself stored the value, `Old` when
/// the entry pre-existed. A slot stays valid, and keeps denoting the same
/// value, until an exclusive removal or clear.
pub enum CachedValue<V> {
    /// The producer supplied the value directly; the store was not touched.
    Ext(V),
    /// The value was just stored, in this slot.
    New(usize),
    /// The value was already stored, in this slot.
    Old(usize),
}

impl<V> CachedValue<V> {
    /// True when the value came from outside the store.
    pub fn is_ext(&self) -> (r: bool)
        ensures
            r == (self is Ext),
    {
        match self {
            CachedValue::Ext(_) => true,
            _ => false,
        }
    }

    /// True when the value was stored by the call that returned this.
    pub fn is_new(&self) -> (r: bool)
        ensures
            r == (self is New),
    {
        match self {
            CachedValue::New(_) => true,
            _ => false,
        }
    }

    /// True when the value was already stored before the call.
    pub fn is_old(&self) -> (r: bool)
        ensures
            r == (self is Old),
    {
        match self {
            CachedValue::Old(_) => true,
            _ => false,
        }
    }

    /// The stable slot of the stored value: the identity witness for the
    /// `New` and `Old` outcomes, absent for `Ext`.
    pub fn slot(&self) -> (r: Option<usize>)
        ensures
            (match *self {
                CachedValue::Ext(_) => r is None,
                CachedValue::New(s) => r == Some(s),
                CachedValue::Old(s) => r == Some(s),
            }),
    {
        match self {
            CachedValue::Ext(_) => None,
            CachedValue::New(s) => Some(*s),
            CachedValue::Old(s) => Some(*s),
        }
    }

    /// The value carried by an `Ext` outcome.
    pub fn ext_value(&self) -> (r: Option<&V>)
        ensures
            r is Some <==> self is Ext,
            (match self {
                CachedValue::Ext(v) => r matches Some(rv) && rv == v,
                _ => true,
            }),
    {
        match self {
            CachedValue::Ext(v) => Some(v),
            _ => None,
        }
    }
}

} // verus!
