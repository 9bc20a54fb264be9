//! Small helpers on numbers, names and vectors.

use vstd::prelude::*;
use vstd::string::StringExecFns;

verus! {

/// Whether `num` is even.
pub fn is_even(num: i32) -> (r: bool)
    ensures
        r == (num % 2 == 0),
{
    num % 2 == 0
}

/// A value in a box of its own.
pub struct Container<T> {
    pub value: T,
}

impl<T> Container<T> {
    /// Wraps `value`.
    pub fn new(value: T) -> (r: Self)
        ensures
            r.value == value,
    {
        Container { value }
    }

    /// The wrapped value.
    pub fn println(&self) -> (r: &T)
        ensures
            *r == self.value,
    {
        &self.value
    }
}

/// A person's name, with or without a middle name.
pub struct Person {
    pub first: String,
    pub middle: Option<String>,
    pub last: String,
}

/// The full name: the parts that there are, in order, with one space between
/// them.
pub open spec fn full_name(first: Seq<char>, middle: Option<Seq<char>>, last: Seq<char>) -> Seq<
    char,
> {
    match middle {
        Some(m) => first + seq![' '] + m + seq![' '] + last,
        None => first + seq![' '] + last,
    }
}

/// The full name of `person`.
pub fn build_full_name(person: &Person) -> (r: String)
    ensures
        r@ == full_name(
            person.first@,
            match person.middle {
                Some(m) => Some(m@),
                None => None,
            },
            person.last@,
        ),
{
    proof {
        reveal_strlit(" ");
        assert(" "@ =~= seq![' ']);
    }
    let mut full_name: String = String::new();
    full_name.append(person.first.as_str());
    full_name.append(" ");
    if let Some(val) = &person.middle {
        full_name.append(val.as_str());
        full_name.append(" ");
    }
    full_name.append(person.last.as_str());
    assert(Seq::<char>::empty() + person.first@ =~= person.first@);
    full_name
}

/// Appends a copy of `value` to `vector` and returns the text just stored.
pub fn copy_and_return<'a>(vector: &'a mut Vec<String>, value: &'a str) -> (r: &'a str)
    ensures
        final(vector)@.len() == old(vector)@.len() + 1,
        final(vector)@.subrange(0, old(vector)@.len() as int) == old(vector)@,
        final(vector)@.last()@ == value@,
        r@ == value@,
{
    vector.push(String::from_str(value));
    assert(vector@.subrange(0, old(vector)@.len() as int) =~= old(vector)@);
    value
}

/// The fruit in the basket, each kind once, with its count.
pub fn fruit_basket() -> (r: Vec<(String, u32)>)
    ensures
        r@.len() == 3,
        r@[0].0@ == "banana"@ && r@[0].1 == 2,
        r@[1].0@ == "apple"@ && r@[1].1 == 3,
        r@[2].0@ == "pear"@ && r@[2].1 == 4,
{
    let mut basket: Vec<(String, u32)> = Vec::new();
    basket.push((String::from_str("banana"), 2));
    basket.push((String::from_str("apple"), 3));
    basket.push((String::from_str("pear"), 4));
    basket
}

} // verus!
