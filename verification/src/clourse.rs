//! Passing a closure to a function.

use vstd::prelude::*;

verus! {

/// Applies `func` to `x`.
pub fn test_pass_clourse<F>(x: i32, func: F) -> (r: u32) where F: Fn(i32) -> u32
    requires
        func.requires((x,)),
    ensures
        func.ensures((x,), r),
{
    func(x)
}

} // verus!
