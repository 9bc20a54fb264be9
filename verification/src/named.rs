//! A record made from anything that turns into a name.

use vstd::prelude::*;
use vstd::std_specs::convert::IntoSpec;

verus! {

/// Someone with a name.
#[derive(Debug)]
pub struct Person {
    pub name: String,
}

impl Person {
    /// The person whose name `arg` turns into.
    pub fn new<S: Into<String>>(arg: S) -> (r: Person)
        ensures
            S::obeys_into_spec() ==> r.name == arg.into_spec(),
    {
        Person { name: arg.into() }
    }
}

} // verus!
