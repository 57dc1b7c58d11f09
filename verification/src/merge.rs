//! Merging two variant sets into their deduplicated union, and the difference
//! of two variant sets (the remainder left by a split).

use vstd::prelude::*;

use crate::set::{keys_not_in, keys_subset, merged_keys, VariantSet};

verus! {

/// Extending the scanned list by one key extends its non-members by that key
/// exactly when the key is absent from `a`.
pub proof fn lemma_keys_not_in_push(b: Seq<u64>, a: Seq<u64>, x: u64)
    ensures
        keys_not_in(b.push(x), a) == keys_not_in(b, a) + if a.contains(x) {
            Seq::<u64>::empty()
        } else {
            seq![x]
        },
    decreases b.len(),
{
    let s = b.push(x);
    let tail = if a.contains(x) {
        Seq::<u64>::empty()
    } else {
        seq![x]
    };
    if b.len() == 0 {
        assert(s[0] == x);
        assert(s.drop_first() =~= b);
        assert(keys_not_in(b, a) + tail =~= tail);
        assert(keys_not_in(s, a) =~= tail);
    } else {
        assert(s[0] == b[0]);
        assert(s.drop_first() =~= b.drop_first().push(x));
        lemma_keys_not_in_push(b.drop_first(), a, x);
        assert(keys_not_in(b.drop_first().push(x), a) == keys_not_in(b.drop_first(), a) + tail);
        if a.contains(b[0]) {
            assert(keys_not_in(s, a) == keys_not_in(s.drop_first(), a));
            assert(keys_not_in(b, a) == keys_not_in(b.drop_first(), a));
        } else {
            assert(keys_not_in(s, a) == seq![b[0]] + keys_not_in(s.drop_first(), a));
            assert(keys_not_in(b, a) == seq![b[0]] + keys_not_in(b.drop_first(), a));
            assert(seq![b[0]] + (keys_not_in(b.drop_first(), a) + tail) =~= (seq![b[0]]
                + keys_not_in(b.drop_first(), a)) + tail);
        }
    }
}

/// A key comes out of `keys_not_in` exactly when it is in `b` and not in `a`.
pub proof fn lemma_keys_not_in_contains(b: Seq<u64>, a: Seq<u64>)
    ensures
        forall|k: u64| #[trigger] keys_not_in(b, a).contains(k) <==> (b.contains(k)
            && !a.contains(k)),
    decreases b.len(),
{
    if b.len() == 0 {
    } else {
        lemma_keys_not_in_contains(b.drop_first(), a);
        let rest = keys_not_in(b.drop_first(), a);
        assert forall|k: u64| b.contains(k) && !a.contains(k) implies #[trigger] keys_not_in(
            b,
            a,
        ).contains(k) by {
            let i = choose|i: int| 0 <= i < b.len() && b[i] == k;
            if i == 0 {
                assert(!a.contains(b[0]));
                assert(keys_not_in(b, a) == seq![b[0]] + rest);
                assert(keys_not_in(b, a)[0] == k);
            } else {
                assert(b.drop_first()[i - 1] == k);
                assert(b.drop_first().contains(k));
                assert(rest.contains(k));
                let w = choose|w: int| 0 <= w < rest.len() && rest[w] == k;
                if a.contains(b[0]) {
                    assert(keys_not_in(b, a) == rest);
                } else {
                    assert(keys_not_in(b, a) == seq![b[0]] + rest);
                    assert(keys_not_in(b, a)[w + 1] == k);
                }
            }
        }
        assert forall|k: u64| #[trigger] keys_not_in(b, a).contains(k) implies b.contains(k)
            && !a.contains(k) by {
            let r = keys_not_in(b, a);
            let w = choose|w: int| 0 <= w < r.len() && r[w] == k;
            if a.contains(b[0]) {
                assert(r == rest);
                assert(rest.contains(k));
            } else {
                assert(r == seq![b[0]] + rest);
                if w == 0 {
                    assert(b[0] == k);
                } else {
                    assert(rest[w - 1] == k);
                    assert(rest.contains(k));
                }
            }
            if b.drop_first().contains(k) {
                let i = choose|i: int| 0 <= i < b.drop_first().len() && b.drop_first()[i] == k;
                assert(b[i + 1] == k);
            }
        }
    }
}

/// `keys_not_in` keeps distinctness and relative order of the kept keys.
pub proof fn lemma_keys_not_in_no_duplicates(b: Seq<u64>, a: Seq<u64>)
    requires
        b.no_duplicates(),
    ensures
        keys_not_in(b, a).no_duplicates(),
    decreases b.len(),
{
    if b.len() == 0 {
    } else {
        lemma_keys_not_in_no_duplicates(b.drop_first(), a);
        lemma_keys_not_in_contains(b.drop_first(), a);
        if !a.contains(b[0]) {
            let r = keys_not_in(b, a);
            let rest = keys_not_in(b.drop_first(), a);
            assert forall|i: int, j: int|
                0 <= i < r.len() && 0 <= j < r.len() && i != j implies r[i] != r[j] by {
                if i != 0 && j != 0 {
                    assert(r[i] == rest[i - 1] && r[j] == rest[j - 1]);
                } else {
                    let m = if i == 0 {
                        j
                    } else {
                        i
                    };
                    assert(rest[m - 1] == r[m]);
                    assert(rest.contains(r[m]));
                    assert(b.drop_first().contains(r[m]));
                    let w = choose|w: int|
                        0 <= w < b.drop_first().len() && b.drop_first()[w] == r[m];
                    assert(b[w + 1] == r[m]);
                    assert(b[0] != b[w + 1]);
                }
            }
        }
    }
}

/// The merge of two duplicate-free variant sets holds each distinct key
/// exactly once, and holds a key exactly when one of the inputs does.
pub proof fn lemma_merged_keys(a: Seq<u64>, b: Seq<u64>)
    requires
        a.no_duplicates(),
        b.no_duplicates(),
    ensures
        merged_keys(a, b).no_duplicates(),
        forall|k: u64| #[trigger] merged_keys(a, b).contains(k) <==> (a.contains(k) || b.contains(
            k,
        )),
        merged_keys(a, b).take(a.len() as int) == a,
{
    lemma_keys_not_in_contains(b, a);
    lemma_keys_not_in_no_duplicates(b, a);
    let m = merged_keys(a, b);
    let rest = keys_not_in(b, a);
    assert forall|i: int, j: int|
        0 <= i < m.len() && 0 <= j < m.len() && i != j implies m[i] != m[j] by {
        if i < a.len() && j < a.len() {
        } else if i >= a.len() && j >= a.len() {
            assert(m[i] == rest[i - a.len()] && m[j] == rest[j - a.len()]);
        } else {
            let (p, q) = if i < a.len() {
                (i, j)
            } else {
                (j, i)
            };
            assert(m[q] == rest[q - a.len()]);
            assert(rest.contains(m[q]));
            assert(a.contains(m[p]));
        }
    }
    assert forall|k: u64| a.contains(k) || b.contains(k) implies #[trigger] m.contains(k) by {
        if a.contains(k) {
            let i = choose|i: int| 0 <= i < a.len() && a[i] == k;
            assert(m[i] == k);
        } else {
            assert(rest.contains(k));
            let i = choose|i: int| 0 <= i < rest.len() && rest[i] == k;
            assert(m[a.len() + i] == k);
        }
    }
    assert forall|k: u64| #[trigger] m.contains(k) implies a.contains(k) || b.contains(k) by {
        let i = choose|i: int| 0 <= i < m.len() && m[i] == k;
        if i < a.len() {
            assert(a[i] == k);
        } else {
            assert(rest[i - a.len()] == k);
            assert(rest.contains(k));
        }
    }
    assert(m.take(a.len() as int) =~= a);
}

/// The merge is an upper bound of both inputs: every alternative of either
/// set occurs in it, so a container over either input can be embedded into a
/// container over the merge.
pub proof fn lemma_merge_upper_bound(a: Seq<u64>, b: Seq<u64>)
    requires
        a.no_duplicates(),
        b.no_duplicates(),
    ensures
        keys_subset(a, merged_keys(a, b)),
        keys_subset(b, merged_keys(a, b)),
{
    lemma_merged_keys(a, b);
}

/// Merging variant sets: the deduplicated union, every alternative of `self`
/// first, then every alternative of `other` not already offered.
pub trait Merge: View<V = Seq<u64>> + Sized {
    /// Build the merged set. Containers over `self` and over `other` can both
    /// be embedded into it.
    fn merge(&self, other: &Self) -> (r: Self)
        requires
            self@.no_duplicates(),
            other@.no_duplicates(),
        ensures
            r@ == merged_keys(self@, other@),
    ;
}

impl Merge for VariantSet {
    fn merge(&self, other: &Self) -> (r: Self) {
        let mut acc = self.clone();
        let n = other.len();
        let mut i: usize = 0;
        proof {
            assert(other@.take(0) =~= Seq::<u64>::empty());
            assert(acc@ =~= merged_keys(self@, other@.take(0)));
        }
        while i < n
            invariant
                i <= n,
                n == other@.len(),
                self@.no_duplicates(),
                other@.no_duplicates(),
                acc@ == merged_keys(self@, other@.take(i as int)),
            decreases n - i,
        {
            let k = other.key_at(i);
            proof {
                lemma_keys_not_in_push(other@.take(i as int), self@, k);
                lemma_keys_not_in_contains(other@.take(i as int), self@);
                assert(other@.take(i + 1) =~= other@.take(i as int).push(k));
                if !other@.take(i as int).contains(k) && !self@.contains(k) {
                    let rest = keys_not_in(other@.take(i as int), self@);
                    assert(!rest.contains(k));
                    if acc@.contains(k) {
                        let w = choose|w: int| 0 <= w < acc@.len() && acc@[w] == k;
                        if w < self@.len() {
                            assert(self@[w] == k);
                            assert(self@.contains(k));
                        } else {
                            assert(rest[w - self@.len()] == k);
                            assert(rest.contains(k));
                        }
                    }
                    assert(!acc@.contains(k));
                }
                assert(forall|j: int| 0 <= j < i ==> other@.take(i as int)[j] == other@[j]);
                if other@.take(i as int).contains(k) {
                    let w = choose|w: int| 0 <= w < i && other@.take(i as int)[w] == k;
                    assert(other@[w] == other@[i as int]);
                    assert(false);
                }
                if self@.contains(k) {
                    let w = choose|w: int| 0 <= w < self@.len() && self@[w] == k;
                    assert(acc@[w] == k);
                    assert(acc@.contains(k));
                }
            }
            acc = acc.append(k);
            proof {
                assert(acc@ =~= merged_keys(self@, other@.take(i + 1)));
            }
            i = i + 1;
        }
        proof {
            assert(other@.take(n as int) =~= other@);
        }
        acc
    }
}

impl VariantSet {
    /// The alternatives of `self` that `sub` does not offer, in their original
    /// order: the remainder left when `sub` is split off.
    pub fn difference(&self, sub: &Self) -> (r: Self)
        ensures
            r@ == keys_not_in(self@, sub@),
    {
        let mut ks: Vec<u64> = Vec::new();
        let n = self.len();
        let mut i: usize = 0;
        proof {
            assert(self@.take(0) =~= Seq::<u64>::empty());
            assert(ks@ =~= keys_not_in(self@.take(0), sub@));
        }
        while i < n
            invariant
                i <= n,
                n == self@.len(),
                ks@ == keys_not_in(self@.take(i as int), sub@),
            decreases n - i,
        {
            let k = self.key_at(i);
            proof {
                lemma_keys_not_in_push(self@.take(i as int), sub@, k);
                assert(self@.take(i + 1) =~= self@.take(i as int).push(k));
            }
            if !sub.contains_key(k) {
                ks.push(k);
                proof {
                    assert(ks@ =~= keys_not_in(self@.take(i + 1), sub@));
                }
            } else {
                proof {
                    assert(ks@ =~= keys_not_in(self@.take(i + 1), sub@));
                }
            }
            i = i + 1;
        }
        proof {
            assert(self@.take(n as int) =~= self@);
        }
        VariantSet::from_keys(ks)
    }
}

} // verus!
