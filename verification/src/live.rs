//! Values that are handed over and given up.

use vstd::prelude::*;

verus! {

/// Marks a type whose values may be given up.
pub trait WhatEver {

}

/// A numbered value.
#[derive(Debug)]
pub struct LifeCycle(pub u32);

impl LifeCycle {
    /// The value with the number `val`.
    pub fn new(val: u32) -> (r: Self)
        ensures
            r.0 == val,
    {
        LifeCycle(val)
    }
}

impl WhatEver for LifeCycle {

}

/// Takes `t` and gives it up.
pub fn nop_drop<T>(t: T) where T: WhatEver {
}

/// The first of two texts, of which the second lives at least as long.
pub fn test_str<'a, 'b: 'a>(x: &'a str, y: &'b str) -> (r: &'a str)
    ensures
        r@ == x@,
{
    x
}

/// A view of bytes that hands them out one by one, from the front.
pub struct ByteIter<'a> {
    pub remainer: &'a [u8],
}

impl<'a> ByteIter<'a> {
    /// The first byte that is left, which then leaves the view; nothing, and
    /// no change, where none is left.
    pub fn next(&mut self) -> (r: Option<&'a u8>)
        ensures
            match r {
                Some(byte) => {
                    &&& old(self).remainer@.len() > 0
                    &&& *byte == old(self).remainer@[0]
                    &&& final(self).remainer@ == old(self).remainer@.skip(1)
                },
                None => {
                    &&& old(self).remainer@.len() == 0
                    &&& final(self).remainer@ == old(self).remainer@
                },
            },
    {
        if self.remainer.len() == 0 {
            None
        } else {
            let byte: &'a u8 = &self.remainer[0];
            self.remainer = vstd::slice::slice_subrange(self.remainer, 1, self.remainer.len());
            Some(byte)
        }
    }
}

} // verus!
