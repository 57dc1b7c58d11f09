//! The algebraic laws of the coproduct operations, proved once for every
//! container flavor from the operation contracts alone.

use vstd::prelude::*;

use crate::coproduct::{At, Embed, Slotted, Split};
use crate::merge::{lemma_merged_keys, Merge};
use crate::set::{keys_subset, lemma_remove_key_properties, remove_key, VariantSet};

verus! {

/// Round trip: for every variant set, key of it, and payload, extracting by
/// `key` right after injecting under `key` returns `Ok` with exactly the
/// injected payload.
pub proof fn lemma_round_trip<V, C: At<V>>(
    set: VariantSet,
    key: u64,
    value: V,
    c: C,
    r: Result<V, C>,
)
    requires
        set.wf(),
        set@.contains(key),
        call_ensures(C::inject, (set, key, value), c),
        call_ensures(C::uninject, (c, key), r),
    ensures
        r == Ok::<V, C>(value),
{
}

/// Narrowing correctness: extracting by `t` from a container whose active
/// alternative is some other key gives the narrowed container over the
/// variant set minus `t`; the original payload is still there, under its old
/// key at its shifted position, and extracting it yields the original value.
pub proof fn lemma_narrowing<V, C: At<V>>(c: C, t: u64, c2: C, r2: Result<V, C>)
    requires
        c.wf(),
        c.vset().contains(t),
        c.active_key() != t,
        call_ensures(C::uninject, (c, t), Err::<V, C>(c2)),
        call_ensures(C::uninject, (c2, c.active_key()), r2),
    ensures
        c2.vset() == remove_key(c.vset(), t),
        c2.vset().contains(c.active_key()),
        r2 == Ok::<V, C>(c.vvalue()),
{
    c.wf_facts();
    lemma_remove_key_properties(c.vset(), t);
    assert(c.vset()[c.vtag()] == c.active_key());
    assert(c.vset().contains(c.active_key()));
    assert(remove_key(c.vset(), t).contains(c.active_key()));
}

/// Embed idempotence under split: widening a container into any superset of
/// its variant set and then splitting the original set back off always
/// succeeds and returns a container structurally equal to the original (same
/// alternatives, same tag, same payload).
pub proof fn lemma_embed_then_split<V, C: Embed<V> + Split<V>>(
    c: C,
    sub: VariantSet,
    target: VariantSet,
    d: C,
    r: Result<C, C>,
)
    requires
        c.wf(),
        target.wf(),
        keys_subset(c.vset(), target@),
        sub@ == c.vset(),
        call_ensures(C::embed, (c, &target), d),
        call_ensures(C::split, (d, &sub), r),
    ensures
        match r {
            Ok(e) => {
                &&& e.vset() == c.vset()
                &&& e.vtag() == c.vtag()
                &&& e.active_key() == c.active_key()
                &&& e.vvalue() == c.vvalue()
            },
            Err(_) => false,
        },
{
    c.wf_facts();
    match r {
        Ok(e) => {
            e.wf_facts();
        },
        Err(_) => {
        },
    }
}

/// Merge determinism: the merge of two variant sets offers each distinct key
/// exactly once (no key ever twice, however much the inputs overlap), and
/// offers a key exactly when one of the inputs does.
pub proof fn lemma_merge_determinism(a: VariantSet, b: VariantSet, m: VariantSet)
    requires
        a@.no_duplicates(),
        b@.no_duplicates(),
        call_ensures(VariantSet::merge, (&a, &b), m),
    ensures
        m@.no_duplicates(),
        forall|k: u64| #[trigger] m@.contains(k) <==> a@.contains(k) || b@.contains(k),
{
    lemma_merged_keys(a@, b@);
}

/// The terminal step of an exhaustive case analysis: extracting the only
/// alternative of a single-alternative container always succeeds, so the
/// narrowing chain ends before an empty-set container could ever be produced.
pub proof fn lemma_last_extraction_succeeds<V, C: At<V>>(c: C, key: u64, r: Result<V, C>)
    requires
        c.wf(),
        c.vset().len() == 1,
        c.vset().contains(key),
        call_ensures(C::uninject, (c, key), r),
    ensures
        r == Ok::<V, C>(c.vvalue()),
{
    c.wf_facts();
    let i = choose|i: int| 0 <= i < c.vset().len() && c.vset()[i] == key;
    assert(i == 0);
    assert(c.vtag() == 0);
}

/// No container over the empty variant set can exist: well-formedness pins the
/// tag to a real position of the key list.
pub proof fn lemma_no_empty_container<V, C: Slotted<V>>(c: &C)
    requires
        c.wf(),
    ensures
        c.vset().len() > 0,
{
    c.wf_facts();
}

} // verus!
