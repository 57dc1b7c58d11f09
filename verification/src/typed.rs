//! The borrowed, type-erased counterpart of the owning containers: a payload
//! paired with the identity key of its type, and no positional information of
//! its own. Membership in a variant set is decided by a runtime comparison of
//! identity keys, so widening and splitting work over a reference without any
//! ownership transfer.

use vstd::prelude::*;

use crate::set::{keys_not_in, keys_subset, VariantSet};
use crate::merge::lemma_keys_not_in_contains;

verus! {

/// A value tagged with the identity key of its type.
#[derive(PartialEq, Eq, Debug)]
pub struct Typed<V> {
    key: u64,
    data: V,
}

impl<V> Typed<V> {
    /// The identity key recorded for the stored value.
    pub closed spec fn vkey(&self) -> u64 {
        self.key
    }

    /// The stored value.
    pub closed spec fn vdata(&self) -> V {
        self.data
    }

    /// Wrap `data` under `key`, the identity key that names its type inside
    /// `set`.
    pub fn new(set: &VariantSet, key: u64, data: V) -> (r: Self)
        requires
            set@.contains(key),
        ensures
            r.vkey() == key,
            r.vdata() == data,
    {
        Typed { key, data }
    }

    /// The identity key of the stored value.
    pub fn key(&self) -> (k: u64)
        ensures
            k == self.vkey(),
    {
        self.key
    }

    /// If the stored value is of the type `key` names, return a reference to
    /// it; otherwise hand the same view back, now known not to be that type.
    pub fn uninject(&self, key: u64) -> (r: Result<&V, &Typed<V>>)
        ensures
            match r {
                Ok(v) => self.vkey() == key && *v == self.vdata(),
                Err(t) => self.vkey() != key && t == self,
            },
    {
        if self.key == key {
            Ok(&self.data)
        } else {
            Err(self)
        }
    }

    /// View the value under a wider variant set: nothing is moved or re-tagged
    /// at runtime, only the membership of the key is transported from `from`
    /// into its superset `target`.
    pub fn embed<'a>(&'a self, from: &VariantSet, target: &VariantSet) -> (r: &'a Typed<V>)
        requires
            from@.contains(self.vkey()),
            keys_subset(from@, target@),
        ensures
            r == self,
            target@.contains(self.vkey()),
    {
        self
    }

    /// Split the view against a chosen subset `sub` of the variant set `from`:
    /// the same reference comes back, on the `Ok` side when `sub` offers the
    /// stored type, else on the remainder side (`from` minus `sub`).
    pub fn split<'a>(&'a self, from: &VariantSet, sub: &VariantSet) -> (r: Result<
        &'a Typed<V>,
        &'a Typed<V>,
    >)
        requires
            from@.contains(self.vkey()),
            keys_subset(sub@, from@),
        ensures
            match r {
                Ok(t) => sub@.contains(self.vkey()) && t == self,
                Err(t) => {
                    &&& !sub@.contains(self.vkey())
                    &&& keys_not_in(from@, sub@).contains(self.vkey())
                    &&& t == self
                },
            },
    {
        if sub.contains_key(self.key) {
            Ok(self)
        } else {
            proof {
                lemma_keys_not_in_contains(from@, sub@);
            }
            Err(self)
        }
    }
}

} // verus!
