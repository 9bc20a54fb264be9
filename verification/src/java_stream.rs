//! Telling a Java object stream from other data by its first bytes.

use vstd::prelude::*;

verus! {

/// The stream begins with the two magic bytes of Java serialization.
pub open spec fn has_java_magic(bin: Seq<u8>) -> bool {
    bin.len() >= 2 && bin[0] == 0xac && bin[1] == 0xed
}

/// Names the format of `bin` and gives its version: for a Java object stream
/// the big-endian number in its third and fourth byte, 999 for anything else.
pub fn detect_java_ver(bin: &[u8]) -> (r: (&'static str, u16))
    requires
        bin@.len() >= 2,
        has_java_magic(bin@) ==> bin@.len() >= 4,
    ensures
        has_java_magic(bin@) ==> r.0@ == "java searialize format"@ && r.1 == bin@[2] * 256
            + bin@[3],
        !has_java_magic(bin@) ==> r.0@ == "other format"@ && r.1 == 999,
{
    if bin[0] == 0xac && bin[1] == 0xed {
        let ver: u16 = (bin[2] as u16) * 256 + (bin[3] as u16);
        ("java searialize format", ver)
    } else {
        ("other format", 999)
    }
}

/// A type that can be made from a number.
pub trait Inst: Sized {
    /// The numbers from which a value can be made.
    spec fn accepts(n: i32) -> bool;

    /// The value made from `n`.
    spec fn made(n: i32) -> Self;

    /// Makes a value from `n`.
    fn new(n: i32) -> (r: Self)
        requires
            Self::accepts(n),
        ensures
            r == Self::made(n),
    ;
}

/// One number.
#[derive(Debug, PartialEq)]
pub struct Foo(pub i32);

/// A number and the number ten above it.
#[derive(Debug, PartialEq)]
pub struct Bar(pub i32, pub i32);

impl Inst for Foo {
    open spec fn accepts(n: i32) -> bool {
        true
    }

    open spec fn made(n: i32) -> Self {
        Foo(n)
    }

    fn new(n: i32) -> (r: Self) {
        Foo(n)
    }
}

impl Inst for Bar {
    open spec fn accepts(n: i32) -> bool {
        n <= i32::MAX - 10
    }

    open spec fn made(n: i32) -> Self {
        Bar(n, (n + 10) as i32)
    }

    fn new(n: i32) -> (r: Self) {
        Bar(n, n + 10)
    }
}

/// Makes a value of the type asked for from `n`.
pub fn foobar<T: Inst>(n: i32) -> (r: T)
    requires
        T::accepts(n),
    ensures
        r == T::made(n),
{
    T::new(n)
}

} // verus!
