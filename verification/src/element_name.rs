//! Splitting the name of an XML element into its prefix and its local part.

use vstd::prelude::*;
use vstd::string::{StrSliceExecFns, StringExecFns};

verus! {

/// Why a name could not be split.
#[derive(Debug, Clone, Copy, PartialEq, Eq, Structural)]
pub enum NameError {
    /// The name holds more than one colon.
    InvalidElement,
}

/// The position of the first colon of `s` at or behind `from`; the length of
/// `s` where there is none.
pub open spec fn first_colon(s: Seq<char>, from: int) -> int
    decreases s.len() - from,
{
    if from < 0 || from >= s.len() {
        s.len() as int
    } else if s[from] == ':' {
        from
    } else {
        first_colon(s, from + 1)
    }
}

/// The parts of an element name: with no colon the name has no prefix, with
/// one colon the prefix stands before it and the local part behind it, and
/// with more than one the name is invalid.
pub open spec fn split_name(s: Seq<char>) -> Result<(Option<Seq<char>>, Seq<char>), NameError> {
    let colon = first_colon(s, 0);
    if colon >= s.len() {
        Ok((None, s))
    } else if first_colon(s, colon + 1) < s.len() {
        Err(NameError::InvalidElement)
    } else {
        Ok((Some(s.subrange(0, colon)), s.subrange(colon + 1, s.len() as int)))
    }
}

/// Finds the first colon of `s` at or behind `from`.
fn find_colon(s: &str, from: usize, len: usize) -> (r: usize)
    requires
        len == s@.len(),
        from <= len,
    ensures
        r == first_colon(s@, from as int),
        from <= r <= len,
{
    let mut at: usize = from;
    while at < len && s.get_char(at) != ':'
        invariant
            len == s@.len(),
            from <= at <= len,
            first_colon(s@, from as int) == first_colon(s@, at as int),
        decreases len - at,
    {
        at = at + 1;
    }
    at
}

/// Splits the element name `s` at its colon.
pub fn split_element_name(s: &str) -> (r: Result<(Option<String>, String), NameError>)
    ensures
        match (split_name(s@), r) {
            (Ok((None, name)), Ok((None, local))) => local@ == name,
            (Ok((Some(ns), name)), Ok((Some(prefix), local))) => prefix@ == ns && local@ == name,
            (Err(e), Err(f)) => e == f,
            _ => false,
        },
{
    let len: usize = s.unicode_len();
    let colon: usize = find_colon(s, 0, len);
    if colon >= len {
        Ok((None, String::from_str(s)))
    } else if find_colon(s, colon + 1, len) < len {
        Err(NameError::InvalidElement)
    } else {
        let prefix: String = String::from_str(s.substring_char(0, colon));
        let local: String = String::from_str(s.substring_char(colon + 1, len));
        Ok((Some(prefix), local))
    }
}

} // verus!
