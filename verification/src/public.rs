//! Plain data that is handed to other programs.

use vstd::prelude::*;

verus! {

/// A named point, which may lead on to another point.
#[derive(Debug)]
pub struct Point<'a> {
    pub x: i32,
    pub y: i32,
    pub name: &'a str,
    pub other: Option<Box<Point<'a>>>,
}

} // verus!
