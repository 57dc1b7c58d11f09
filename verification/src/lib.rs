//! An open union (coproduct) container: a value of exactly one type out of an
//! ordered set of alternatives, together with algorithms to inject a value,
//! extract it by type, widen the set of alternatives, split it into a chosen
//! subset plus a remainder, and merge two sets of alternatives.
//!
//! Each alternative is named by an identity key (`u64`), one per payload type;
//! the position of the active alternative inside the ordered key list is the
//! container's tag. The tag and the stored value are only ever updated
//! together, so the tag always names the alternative that is really stored.
//!
//! Identity keys are assumed unique per payload type. If two distinct types
//! are ever given the same key — the known hazard of hash-derived keys — they
//! become one alternative: a variant set drops the second key as a duplicate
//! and membership tests cannot tell the types apart. Where that risk is
//! unacceptable, assign keys from a central registry.

use vstd::prelude::*;

mod coproduct;
mod count;
mod laws;
mod merge;
mod set;
mod typed;

pub use crate::coproduct::{At, Coproduct, CopyableCoproduct, Embed, Slotted, Split};
pub use crate::count::{Count, Here, There};
pub use crate::laws::{lemma_embed_then_split, lemma_last_extraction_succeeds,
    lemma_merge_determinism, lemma_narrowing, lemma_no_empty_container, lemma_round_trip};
pub use crate::merge::{lemma_keys_not_in_contains, lemma_keys_not_in_no_duplicates,
    lemma_keys_not_in_push, lemma_merge_upper_bound, lemma_merged_keys, Merge};
pub use crate::set::{keys_not_in, keys_subset, lemma_remove_at_properties,
    lemma_remove_key_is_remove_at, lemma_remove_key_properties, merged_keys, occupies, remove_key,
    VariantSet, Without};
pub use crate::typed::Typed;

verus! {

/// Create a coproduct containing `value` under `key`. This standalone form is
/// more convenient than the trait method when the container type is inferred
/// from context.
pub fn inject<V, C: At<V>>(set: VariantSet, key: u64, value: V) -> (r: C)
    requires
        set.wf(),
        set@.contains(key),
    ensures
        r.wf(),
        r.vset() == set@,
        r.active_key() == key,
        r.vvalue() == value,
{
    C::inject(set, key, value)
}

} // verus!
