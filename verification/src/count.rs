//! Ordinal encoding of positions: a position is named by a structured value
//! (zero, or the successor of a position), and converting it to a runtime
//! integer is a simple recursive count. This is the positional alternative to
//! locating an alternative by its identity key.

use vstd::prelude::*;

verus! {

/// The first position of a variant set.
pub struct Here;

/// The position directly after `N`.
pub struct There<N>(pub N);

/// A structured name for a position, with its conversion to a runtime ordinal.
pub trait Count {
    /// The position this value names.
    spec fn ordinal(&self) -> nat;

    /// The position as a runtime integer.
    fn count(&self) -> (r: u32)
        requires
            self.ordinal() < 0xffff_ffff,
        ensures
            r as nat == self.ordinal(),
    ;
}

impl Count for Here {
    open spec fn ordinal(&self) -> nat {
        0
    }

    fn count(&self) -> (r: u32) {
        0
    }
}

impl<N: Count> Count for There<N> {
    open spec fn ordinal(&self) -> nat {
        self.0.ordinal() + 1
    }

    fn count(&self) -> (r: u32) {
        self.0.count() + 1
    }
}

} // verus!
