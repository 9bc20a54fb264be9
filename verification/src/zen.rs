//! Adding numbers of different widths.

use vstd::prelude::*;

verus! {

/// Addition whose two sides and whose result may differ in type.
pub trait Add<RHS = Self>: Sized {
    type Output;

    /// The sum can be represented.
    spec fn sum_fits(self, rhs: RHS) -> bool;

    /// The sum.
    spec fn sum(self, rhs: RHS) -> Self::Output;

    /// Adds `rhs` to `self`.
    fn add(self, rhs: RHS) -> (r: Self::Output)
        requires
            self.sum_fits(rhs),
        ensures
            r == self.sum(rhs),
    ;
}

impl Add<u64> for u32 {
    type Output = u64;

    open spec fn sum_fits(self, rhs: u64) -> bool {
        self + rhs <= u64::MAX
    }

    open spec fn sum(self, rhs: u64) -> u64 {
        (self + rhs) as u64
    }

    fn add(self, other: u64) -> (r: u64) {
        self as u64 + other
    }
}

} // verus!
