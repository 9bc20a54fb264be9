//! A record that borrows its parts.

use vstd::prelude::*;

verus! {

/// A postal address.
#[derive(Debug)]
pub struct Address {
    pub phone: String,
    pub zip_code: String,
    pub addr: String,
}

/// A user, with a borrowed address and a borrowed name.
#[derive(Debug)]
pub struct UserInfo<'a, 'b> {
    pub addr: &'a Address,
    pub name: &'b str,
    pub age: u16,
}

impl<'a, 'b: 'a> UserInfo<'a, 'b> {
    /// A user with the given address, name and age.
    pub fn new(_addr: &'a Address, _name: &'b str, _age: u16) -> (r: Self)
        ensures
            r.addr == _addr,
            r.name@ == _name@,
            r.age == _age,
    {
        UserInfo { addr: _addr, name: _name, age: _age }
    }

    /// The user's name.
    pub fn name(&self) -> (r: &'a str)
        ensures
            r@ == self.name@,
    {
        self.name
    }
}

/// The name of `user`.
pub fn get_name<'a>(user: &'a UserInfo) -> (r: &'a str)
    ensures
        r@ == user.name@,
{
    user.name()
}

} // verus!
