//! The owning coproduct containers and their conversions.
//!
//! A container pairs a variant set with a tag (the position of the active
//! alternative) and the stored payload. The payload slot is type-erased: one
//! Rust type `V` carries whichever alternative is active, and the identity key
//! at the tagged position says which alternative that is. The tag and the
//! payload are only ever moved together, so the key at the tagged position
//! always describes the stored value.

use vstd::prelude::*;

use crate::count::Count;
use crate::merge::{lemma_keys_not_in_contains, lemma_keys_not_in_no_duplicates};
use crate::set::{occupies, remove_key, keys_not_in, keys_subset, lemma_remove_key_is_remove_at,
    lemma_remove_at_properties, VariantSet, Without};

verus! {

/// The abstract state of a coproduct container: which alternatives it offers,
/// which one is active, and the stored payload.
pub trait Slotted<V>: Sized {
    /// The container's invariant: distinct keys, a tag that names a real
    /// position, and an active key read off at that position.
    spec fn wf(&self) -> bool;

    /// The ordered identity keys of the alternatives the container offers.
    spec fn vset(&self) -> Seq<u64>;

    /// The position of the active alternative.
    spec fn vtag(&self) -> int;

    /// The stored payload.
    spec fn vvalue(&self) -> V;

    /// The identity key of the active alternative.
    spec fn active_key(&self) -> u64;

    /// What well-formedness guarantees: the alternatives are distinct, and the
    /// tag names the (then unique) position where the active key sits — so the
    /// variant set of a live container is never empty.
    proof fn wf_facts(&self)
        requires
            self.wf(),
        ensures
            self.vset().no_duplicates(),
            occupies(self.vset(), self.active_key(), self.vtag()),
    ;
}

/// Injection of a payload under a key of the variant set, and extraction by
/// key, narrowing the set on a mismatch.
pub trait At<V>: Slotted<V> {
    /// Wrap `value` as the alternative that `key` names. The tag is the
    /// position of `key` in `set`.
    fn inject(set: VariantSet, key: u64, value: V) -> (r: Self)
        requires
            set.wf(),
            set@.contains(key),
        ensures
            r.wf(),
            r.vset() == set@,
            r.active_key() == key,
            r.vvalue() == value,
    ;

    /// If the active alternative is the one `key` names, return the payload.
    /// Otherwise return the container narrowed to the variant set without
    /// `key`, holding the same payload under the same (re-positioned) key.
    fn uninject(self, key: u64) -> (r: Result<V, Self>)
        requires
            self.wf(),
            self.vset().contains(key),
        ensures
            match r {
                Ok(v) => self.active_key() == key && v == self.vvalue(),
                Err(c) => {
                    &&& self.active_key() != key
                    &&& c.wf()
                    &&& c.vset() == remove_key(self.vset(), key)
                    &&& c.active_key() == self.active_key()
                    &&& c.vvalue() == self.vvalue()
                },
            },
    ;
}

/// Widening of a container into a superset variant set.
pub trait Embed<V>: Slotted<V> {
    /// Re-position the active alternative inside the wider set `target`. The
    /// payload is untouched; only the tag is mapped.
    fn embed(self, target: &VariantSet) -> (r: Self)
        requires
            self.wf(),
            target.wf(),
            keys_subset(self.vset(), target@),
        ensures
            r.wf(),
            r.vset() == target@,
            r.active_key() == self.active_key(),
            r.vvalue() == self.vvalue(),
    ;
}

/// Splitting a container into a chosen subset of its alternatives plus the
/// remainder.
pub trait Split<V>: Slotted<V> {
    /// If the active alternative is one that `sub` offers, return the
    /// container re-tagged into `sub`'s numbering; otherwise return it
    /// re-tagged into the remainder (the container's set minus `sub`'s
    /// alternatives, order preserved). The payload is untouched either way.
    fn split(self, sub: &VariantSet) -> (r: Result<Self, Self>)
        requires
            self.wf(),
            sub.wf(),
            keys_subset(sub@, self.vset()),
        ensures
            match r {
                Ok(c) => {
                    &&& sub@.contains(self.active_key())
                    &&& c.wf()
                    &&& c.vset() == sub@
                    &&& c.active_key() == self.active_key()
                    &&& c.vvalue() == self.vvalue()
                },
                Err(c) => {
                    &&& !sub@.contains(self.active_key())
                    &&& c.wf()
                    &&& c.vset() == keys_not_in(self.vset(), sub@)
                    &&& c.active_key() == self.active_key()
                    &&& c.vvalue() == self.vvalue()
                },
            },
    ;
}

/// A coproduct that can hold any payload type.
#[derive(Debug, PartialEq, Eq)]
pub struct Coproduct<V> {
    set: VariantSet,
    tag: usize,
    value: V,
}

impl<V> Slotted<V> for Coproduct<V> {
    closed spec fn wf(&self) -> bool {
        self.set.wf() && 0 <= self.vtag() < self.vset().len()
    }

    closed spec fn vset(&self) -> Seq<u64> {
        self.set@
    }

    closed spec fn vtag(&self) -> int {
        self.tag as int
    }

    closed spec fn vvalue(&self) -> V {
        self.value
    }

    closed spec fn active_key(&self) -> u64 {
        self.vset()[self.vtag()]
    }

    proof fn wf_facts(&self) {
    }
}

impl<V> At<V> for Coproduct<V> {
    fn inject(set: VariantSet, key: u64, value: V) -> (r: Self) {
        let tag = set.index_of_key(key);
        Coproduct { set, tag, value }
    }

    fn uninject(self, key: u64) -> (r: Result<V, Self>) {
        if self.set.key_at(self.tag) == key {
            Ok(self.value)
        } else {
            let j = self.set.index_of_key(key);
            proof {
                lemma_remove_key_is_remove_at(self.vset(), key, j as int);
                lemma_remove_at_properties(self.vset(), j as int);
            }
            let set = self.set.without(j);
            let tag = if j < self.tag {
                self.tag - 1
            } else {
                self.tag
            };
            Err(Coproduct { set, tag, value: self.value })
        }
    }
}

impl<V> Embed<V> for Coproduct<V> {
    fn embed(self, target: &VariantSet) -> (r: Self) {
        let key = self.set.key_at(self.tag);
        let tag = target.index_of_key(key);
        Coproduct { set: target.clone(), tag, value: self.value }
    }
}

impl<V> Split<V> for Coproduct<V> {
    fn split(self, sub: &VariantSet) -> (r: Result<Self, Self>) {
        let key = self.set.key_at(self.tag);
        if sub.contains_key(key) {
            let tag = sub.index_of_key(key);
            Ok(Coproduct { set: sub.clone(), tag, value: self.value })
        } else {
            let rem = self.set.difference(sub);
            proof {
                lemma_keys_not_in_contains(self.vset(), sub@);
                lemma_keys_not_in_no_duplicates(self.vset(), sub@);
                assert(rem@.contains(key));
            }
            let tag = rem.index_of_key(key);
            Err(Coproduct { set: rem, tag, value: self.value })
        }
    }
}

impl<V> Coproduct<V> {
    /// Try to take the first alternative out: the degenerate single-position
    /// case of extraction, decided by a direct tag-zero check. On failure the
    /// container drops its first alternative and every position shifts down by
    /// one.
    pub fn take_head(self) -> (r: Result<V, Self>)
        requires
            self.wf(),
        ensures
            match r {
                Ok(v) => self.vtag() == 0 && v == self.vvalue(),
                Err(c) => {
                    &&& self.vtag() != 0
                    &&& c.wf()
                    &&& c.vset() == self.vset().drop_first()
                    &&& c.vtag() == self.vtag() - 1
                    &&& c.active_key() == self.active_key()
                    &&& c.vvalue() == self.vvalue()
                },
            },
    {
        if self.tag == 0 {
            Ok(self.value)
        } else {
            proof {
                lemma_remove_at_properties(self.vset(), 0);
                assert(self.vset().remove(0) =~= self.vset().drop_first());
            }
            let set = self.set.without(0);
            Err(Coproduct { set, tag: self.tag - 1, value: self.value })
        }
    }

    /// Extraction under the ordinal scheme: instead of an identity key, the
    /// alternative is named by its position `i`. Otherwise behaves exactly
    /// like [`At::uninject`] called with the key at that position.
    pub fn uninject_at<I: Count>(self, i: &I) -> (r: Result<V, Self>)
        requires
            self.wf(),
            i.ordinal() < self.vset().len(),
            i.ordinal() < 0xffff_ffff,
        ensures
            match r {
                Ok(v) => self.vtag() == i.ordinal() && v == self.vvalue(),
                Err(c) => {
                    &&& self.vtag() != i.ordinal()
                    &&& c.wf()
                    &&& c.vset() == self.vset().remove(i.ordinal() as int)
                    &&& c.active_key() == self.active_key()
                    &&& c.vvalue() == self.vvalue()
                },
            },
    {
        let pos = i.count() as usize;
        let key = self.set.key_at(pos);
        proof {
            self.wf_facts();
            assert(self.vset()[i.ordinal() as int] == key);
            assert(self.vset().contains(key));
            assert forall|j: int| 0 <= j < i.ordinal() implies self.vset()[j] != key by {
                assert(self.vset()[j] != self.vset()[i.ordinal() as int]);
            }
            lemma_remove_key_is_remove_at(self.vset(), key, i.ordinal() as int);
        }
        self.uninject(key)
    }

    /// The position of the active alternative inside the variant set.
    pub fn tag(&self) -> (t: usize)
        ensures
            t == self.vtag(),
    {
        self.tag
    }

    /// The identity key of the active alternative.
    pub fn key(&self) -> (k: u64)
        requires
            self.wf(),
        ensures
            k == self.active_key(),
    {
        self.set.key_at(self.tag)
    }

    /// The variant set the container ranges over.
    pub fn variants(&self) -> (s: &VariantSet)
        ensures
            s@ == self.vset(),
    {
        &self.set
    }
}

impl<V: Clone> Clone for Coproduct<V> {
    /// A cloned container offers the same alternatives with the same active
    /// position; the payload is whatever `V::clone` produces from the
    /// original payload.
    fn clone(&self) -> (r: Self)
        ensures
            r.wf() == self.wf(),
            r.vset() == self.vset(),
            r.vtag() == self.vtag(),
            vstd::pervasive::cloned::<V>(self.vvalue(), r.vvalue()),
    {
        Coproduct { set: self.set.clone(), tag: self.tag, value: self.value.clone() }
    }
}

impl<V> Coproduct<V> {
    /// From falsehood, anything follows: a container over the empty variant
    /// set holds nothing, and no such container can ever be built (its tag
    /// would have to name a position of an empty list), so this function can
    /// never actually be called.
    pub fn ex_falso<T>(&self) -> (r: T)
        requires
            self.wf(),
            self.vset().len() == 0,
    {
        proof {
            self.wf_facts();
        }
        vstd::pervasive::unreached()
    }
}

/// A coproduct restricted to trivially-copyable payloads. With no destructor
/// to dispatch, this flavor clones without touching the payload slot and
/// should be preferred whenever every alternative is a plain bit-copyable
/// value.
#[derive(Debug, PartialEq, Eq)]
pub struct CopyableCoproduct<V: Copy> {
    inner: Coproduct<V>,
}

impl<V: Copy> Slotted<V> for CopyableCoproduct<V> {
    closed spec fn wf(&self) -> bool {
        self.inner.wf()
    }

    closed spec fn vset(&self) -> Seq<u64> {
        self.inner.vset()
    }

    closed spec fn vtag(&self) -> int {
        self.inner.vtag()
    }

    closed spec fn vvalue(&self) -> V {
        self.inner.vvalue()
    }

    closed spec fn active_key(&self) -> u64 {
        self.inner.active_key()
    }

    proof fn wf_facts(&self) {
        self.inner.wf_facts();
    }
}

impl<V: Copy> At<V> for CopyableCoproduct<V> {
    fn inject(set: VariantSet, key: u64, value: V) -> (r: Self) {
        CopyableCoproduct { inner: Coproduct::inject(set, key, value) }
    }

    fn uninject(self, key: u64) -> (r: Result<V, Self>) {
        match self.inner.uninject(key) {
            Ok(v) => Ok(v),
            Err(c) => Err(CopyableCoproduct { inner: c }),
        }
    }
}

impl<V: Copy> Embed<V> for CopyableCoproduct<V> {
    fn embed(self, target: &VariantSet) -> (r: Self) {
        CopyableCoproduct { inner: self.inner.embed(target) }
    }
}

impl<V: Copy> Split<V> for CopyableCoproduct<V> {
    fn split(self, sub: &VariantSet) -> (r: Result<Self, Self>) {
        match self.inner.split(sub) {
            Ok(c) => Ok(CopyableCoproduct { inner: c }),
            Err(c) => Err(CopyableCoproduct { inner: c }),
        }
    }
}

impl<V: Copy> CopyableCoproduct<V> {
    /// Try to take the first alternative out; see [`Coproduct::take_head`].
    pub fn take_head(self) -> (r: Result<V, Self>)
        requires
            self.wf(),
        ensures
            match r {
                Ok(v) => self.vtag() == 0 && v == self.vvalue(),
                Err(c) => {
                    &&& self.vtag() != 0
                    &&& c.wf()
                    &&& c.vset() == self.vset().drop_first()
                    &&& c.vtag() == self.vtag() - 1
                    &&& c.active_key() == self.active_key()
                    &&& c.vvalue() == self.vvalue()
                },
            },
    {
        match self.inner.take_head() {
            Ok(v) => Ok(v),
            Err(c) => Err(CopyableCoproduct { inner: c }),
        }
    }

    /// The position of the active alternative inside the variant set.
    pub fn tag(&self) -> (t: usize)
        ensures
            t == self.vtag(),
    {
        self.inner.tag()
    }

    /// The identity key of the active alternative.
    pub fn key(&self) -> (k: u64)
        requires
            self.wf(),
        ensures
            k == self.active_key(),
    {
        self.inner.key()
    }

    /// The variant set the container ranges over.
    pub fn variants(&self) -> (s: &VariantSet)
        ensures
            s@ == self.vset(),
    {
        self.inner.variants()
    }

    /// From falsehood, anything follows; see [`Coproduct::ex_falso`].
    pub fn ex_falso<T>(&self) -> (r: T)
        requires
            self.wf(),
            self.vset().len() == 0,
    {
        self.inner.ex_falso()
    }
}

impl<V: Copy> Clone for CopyableCoproduct<V> {
    /// Since the payload is bit-copyable, a clone is an exact copy: same
    /// alternatives, same active position, same payload.
    fn clone(&self) -> (r: Self)
        ensures
            r.wf() == self.wf(),
            r.vset() == self.vset(),
            r.vtag() == self.vtag(),
            r.vvalue() == self.vvalue(),
    {
        CopyableCoproduct {
            inner: Coproduct {
                set: self.inner.set.clone(),
                tag: self.inner.tag,
                value: self.inner.value,
            },
        }
    }
}

} // verus!
