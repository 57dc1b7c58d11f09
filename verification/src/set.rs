//! The variant-set descriptor: an ordered list of distinct identity keys, one
//! key per alternative payload type of a coproduct.

use vstd::prelude::*;

verus! {

/// True when `key` sits at position `i` of the key list `s`.
pub open spec fn occupies(s: Seq<u64>, key: u64, i: int) -> bool {
    0 <= i < s.len() && s[i] == key
}

/// Every key of `a` also occurs in `b`.
pub open spec fn keys_subset(a: Seq<u64>, b: Seq<u64>) -> bool {
    forall|k: u64| a.contains(k) ==> b.contains(k)
}

/// The keys of `b`, in order, that do not occur in `a`.
pub open spec fn keys_not_in(b: Seq<u64>, a: Seq<u64>) -> Seq<u64>
    decreases b.len(),
{
    if b.len() == 0 {
        Seq::empty()
    } else if a.contains(b[0]) {
        keys_not_in(b.drop_first(), a)
    } else {
        seq![b[0]] + keys_not_in(b.drop_first(), a)
    }
}

/// The deduplicated union of two key lists: all of `a`, then the keys of `b`
/// that `a` does not already hold.
pub open spec fn merged_keys(a: Seq<u64>, b: Seq<u64>) -> Seq<u64> {
    a + keys_not_in(b, a)
}

/// `s` with the first occurrence of `key` removed (and `s` itself when `key`
/// does not occur).
pub open spec fn remove_key(s: Seq<u64>, key: u64) -> Seq<u64>
    decreases s.len(),
{
    if s.len() == 0 {
        s
    } else if s[0] == key {
        s.drop_first()
    } else {
        seq![s[0]] + remove_key(s.drop_first(), key)
    }
}

/// Removing the first occurrence of `key` is removing the position where the
/// earliest occurrence of `key` sits.
pub proof fn lemma_remove_key_is_remove_at(s: Seq<u64>, key: u64, j: int)
    requires
        occupies(s, key, j),
        forall|i: int| 0 <= i < j ==> s[i] != key,
    ensures
        remove_key(s, key) == s.remove(j),
    decreases j,
{
    if s[0] == key {
        assert(j == 0);
        assert(s.remove(0) =~= s.drop_first());
    } else {
        assert(j > 0);
        lemma_remove_key_is_remove_at(s.drop_first(), key, j - 1);
        assert(seq![s[0]] + s.drop_first().remove(j - 1) =~= s.remove(j));
    }
}

/// Removing one position keeps the remaining keys, their relative order, and
/// their distinctness; under distinctness the removed key is gone entirely.
pub proof fn lemma_remove_at_properties(s: Seq<u64>, j: int)
    requires
        0 <= j < s.len(),
    ensures
        s.remove(j).len() == s.len() - 1,
        forall|i: int| 0 <= i < j ==> s.remove(j)[i] == s[i],
        forall|i: int| j <= i < s.len() - 1 ==> s.remove(j)[i] == s[i + 1],
        forall|k: u64| k != s[j] ==> (s.remove(j).contains(k) <==> s.contains(k)),
        s.no_duplicates() ==> s.remove(j).no_duplicates(),
        s.no_duplicates() ==> !s.remove(j).contains(s[j]),
{
    let r = s.remove(j);
    assert forall|k: u64| k != s[j] && s.contains(k) implies r.contains(k) by {
        let i = choose|i: int| 0 <= i < s.len() && s[i] == k;
        if i < j {
            assert(r[i] == k);
        } else {
            assert(r[i - 1] == k);
        }
    }
    assert forall|k: u64| r.contains(k) implies s.contains(k) by {
        let i = choose|i: int| 0 <= i < r.len() && r[i] == k;
        if i < j {
            assert(s[i] == k);
        } else {
            assert(s[i + 1] == k);
        }
    }
    if s.no_duplicates() {
        assert forall|i: int| 0 <= i < r.len() implies r[i] != s[j] by {
            if i < j {
                assert(r[i] == s[i]);
            } else {
                assert(r[i] == s[i + 1]);
            }
        }
    }
}

/// Under distinct keys, removing `key` keeps every other key and its relative
/// order, drops `key` entirely, keeps distinctness, and shortens the list by
/// one.
pub proof fn lemma_remove_key_properties(s: Seq<u64>, key: u64)
    requires
        s.no_duplicates(),
        s.contains(key),
    ensures
        remove_key(s, key).no_duplicates(),
        remove_key(s, key).len() == s.len() - 1,
        forall|k: u64| k != key ==> (remove_key(s, key).contains(k) <==> s.contains(k)),
        !remove_key(s, key).contains(key),
{
    let j = choose|j: int| 0 <= j < s.len() && s[j] == key;
    assert forall|i: int| 0 <= i < j implies s[i] != key by {
        assert(s[i] != s[j]);
    }
    lemma_remove_key_is_remove_at(s, key, j);
    lemma_remove_at_properties(s, j);
}

/// An ordered, duplicate-free list of identity keys. Each key stands for one
/// alternative payload type; the position of a key is the ordinal of that
/// alternative.
#[derive(Debug, PartialEq, Eq)]
pub struct VariantSet {
    keys: Vec<u64>,
}

impl View for VariantSet {
    type V = Seq<u64>;

    closed spec fn view(&self) -> Seq<u64> {
        self.keys@
    }
}

impl VariantSet {
    /// No key occurs twice: a coproduct never offers the same alternative at
    /// two positions.
    pub open spec fn wf(&self) -> bool {
        self@.no_duplicates()
    }

    /// Wrap an already-built key list.
    pub(crate) fn from_keys(keys: Vec<u64>) -> (s: Self)
        ensures
            s@ == keys@,
    {
        VariantSet { keys }
    }

    /// The set with no alternatives at all.
    pub fn empty() -> (s: Self)
        ensures
            s@ == Seq::<u64>::empty(),
            s.wf(),
    {
        VariantSet { keys: Vec::new() }
    }

    /// How many alternatives the set offers.
    pub fn len(&self) -> (n: usize)
        ensures
            n == self@.len(),
    {
        self.keys.len()
    }

    /// The key at position `i`.
    pub fn key_at(&self, i: usize) -> (k: u64)
        requires
            i < self@.len(),
        ensures
            k == self@[i as int],
    {
        self.keys[i]
    }

    /// Whether some alternative of the set carries `key`.
    pub fn contains_key(&self, key: u64) -> (r: bool)
        ensures
            r == self@.contains(key),
    {
        let n = self.keys.len();
        let mut i: usize = 0;
        while i < n
            invariant
                i <= n,
                n == self@.len(),
                forall|j: int| 0 <= j < i ==> self@[j] != key,
            decreases n - i,
        {
            if self.keys[i] == key {
                return true;
            }
            i = i + 1;
        }
        false
    }

    /// The position of `key`, which must occur in the set.
    pub fn index_of_key(&self, key: u64) -> (i: usize)
        requires
            self@.contains(key),
        ensures
            occupies(self@, key, i as int),
            forall|j: int| 0 <= j < i ==> self@[j] != key,
    {
        let ghost w = choose|j: int| 0 <= j < self@.len() && self@[j] == key;
        let n = self.keys.len();
        let mut i: usize = 0;
        loop
            invariant
                n == self@.len(),
                0 <= i <= w < n,
                self@[w] == key,
                forall|j: int| 0 <= j < i ==> self@[j] != key,
            decreases w - i,
        {
            if self.keys[i] == key {
                return i;
            }
            i = i + 1;
        }
    }

    /// The set extended by `key`: unchanged when `key` is already offered,
    /// else with `key` appended as the last alternative.
    pub fn append(self, key: u64) -> (r: Self)
        ensures
            r@ == if self@.contains(key) {
                self@
            } else {
                self@.push(key)
            },
            self.wf() ==> r.wf(),
    {
        if self.contains_key(key) {
            self
        } else {
            let mut s = self;
            s.keys.push(key);
            s
        }
    }
}

/// Dropping one position out of a variant set.
pub trait Without: View<V = Seq<u64>> + Sized {
    /// The set minus its `i`th alternative; every other alternative keeps its
    /// relative order.
    fn without(&self, i: usize) -> (r: Self)
        requires
            i < self@.len(),
        ensures
            r@ == self@.remove(i as int),
    ;
}

impl Without for VariantSet {
    fn without(&self, i: usize) -> (r: Self) {
        let mut ks = self.keys.clone();
        proof {
            assert(ks@ =~= self.keys@);
        }
        ks.remove(i);
        VariantSet { keys: ks }
    }
}

impl Clone for VariantSet {
    /// A cloned set offers exactly the alternatives of the original.
    fn clone(&self) -> (r: Self)
        ensures
            r@ == self@,
    {
        let ks = self.keys.clone();
        proof {
            assert(ks@ =~= self.keys@);
        }
        VariantSet { keys: ks }
    }
}

} // verus!
