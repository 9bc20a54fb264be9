//! Filling a record from decoded fields.

use vstd::prelude::*;
use vstd::string::StringExecFns;
use crate::hessian::copy_slice;
use crate::value::{objects_model, ListModel, Object, ObjectModel};

verus! {

/// A person as a remote peer describes one.
#[derive(Debug)]
pub struct Person {
    pub name: String,
    pub age: i32,
    pub male: bool,
    pub attach: Vec<u8>,
    pub tel: Vec<String>,
}

/// The mathematical value of a `Person`.
pub struct PersonModel {
    pub name: Seq<char>,
    pub age: int,
    pub male: bool,
    pub attach: Seq<u8>,
    pub tel: Seq<Seq<char>>,
}

impl View for Person {
    type V = PersonModel;

    open spec fn view(&self) -> PersonModel {
        PersonModel {
            name: self.name@,
            age: self.age as int,
            male: self.male,
            attach: self.attach@,
            tel: Seq::new(self.tel@.len(), |i: int| self.tel@[i]@),
        }
    }
}

/// The elements of a list value; none for any other value.
pub open spec fn elements_of(value: ObjectModel) -> Seq<ObjectModel> {
    match value {
        ObjectModel::List(ListModel::UTyped(items)) => items,
        ObjectModel::List(ListModel::Typed(_, items)) => items,
        _ => Seq::<ObjectModel>::empty(),
    }
}

/// Every value of `items` is a string.
pub open spec fn all_strings(items: Seq<ObjectModel>) -> bool {
    forall|i: int| 0 <= i < items.len() ==> (#[trigger] items[i]) is Str
}

/// The texts of `items`, which are strings.
pub open spec fn texts_of(items: Seq<ObjectModel>) -> Seq<Seq<char>> {
    Seq::new(items.len(), |i: int| items[i]->Str_0)
}

/// The value is of the kind that the field of this name takes: a string for
/// `name`, an integer for `age`, a boolean for `male`, a binary for `attach`,
/// a list of strings for `tel`. A field of any other name takes anything.
pub open spec fn fits(field: Seq<char>, value: ObjectModel) -> bool {
    if field == "name"@ {
        value is Str
    } else if field == "age"@ {
        value is Integer
    } else if field == "male"@ {
        value is Boolean
    } else if field == "attach"@ {
        value is Bin
    } else if field == "tel"@ {
        value is List && all_strings(elements_of(value))
    } else {
        true
    }
}

/// The person after one field is taken over: `name`, `age` and `male` are
/// replaced, `attach` and `tel` grow, any other field changes nothing.
pub open spec fn with_field(p: PersonModel, field: Seq<char>, value: ObjectModel) -> PersonModel {
    if field == "name"@ {
        PersonModel { name: value->Str_0, ..p }
    } else if field == "age"@ {
        PersonModel { age: value->Integer_0, ..p }
    } else if field == "male"@ {
        PersonModel { male: value->Boolean_0, ..p }
    } else if field == "attach"@ {
        PersonModel { attach: p.attach + value->Bin_0, ..p }
    } else if field == "tel"@ {
        PersonModel { tel: p.tel + texts_of(elements_of(value)), ..p }
    } else {
        p
    }
}

/// The person after the first `count` of `fields` are taken over, in order.
pub open spec fn with_fields(
    p: PersonModel,
    fields: Seq<(String, Object)>,
    count: nat,
) -> PersonModel
    decreases count,
{
    if count == 0 {
        p
    } else {
        with_field(
            with_fields(p, fields, (count - 1) as nat),
            fields[count - 1].0@,
            fields[count - 1].1@,
        )
    }
}

impl Person {
    /// A person with nothing filled in.
    pub fn new() -> (r: Person)
        ensures
            r@ == (PersonModel {
                name: Seq::<char>::empty(),
                age: 0,
                male: false,
                attach: Seq::<u8>::empty(),
                tel: Seq::<Seq<char>>::empty(),
            }),
    {
        let r = Person {
            name: String::new(),
            age: 0,
            male: false,
            attach: Vec::new(),
            tel: Vec::new(),
        };
        assert(r@.tel =~= Seq::<Seq<char>>::empty());
        r
    }

    /// Takes over the fields of `val`, in order. Every value is of the kind
    /// that its field takes.
    pub fn set(&mut self, val: Vec<(String, Object)>) -> (r: Result<(), ()>)
        requires
            forall|i: int| 0 <= i < val@.len() ==> fits((#[trigger] val@[i]).0@, val@[i].1@),
        ensures
            r.is_ok(),
            final(self)@ == with_fields(old(self)@, val@, val@.len()),
    {
        let name_key: String = String::from_str("name");
        let age_key: String = String::from_str("age");
        let male_key: String = String::from_str("male");
        let attach_key: String = String::from_str("attach");
        let tel_key: String = String::from_str("tel");
        let mut i: usize = 0;
        while i < val.len()
            invariant
                i <= val@.len(),
                name_key@ == "name"@,
                age_key@ == "age"@,
                male_key@ == "male"@,
                attach_key@ == "attach"@,
                tel_key@ == "tel"@,
                forall|k: int| 0 <= k < val@.len() ==> fits((#[trigger] val@[k]).0@, val@[k].1@),
                self@ == with_fields(old(self)@, val@, i as nat),
            decreases val@.len() - i,
        {
            let field: &String = &val[i].0;
            let value: &Object = &val[i].1;
            assert(fits(val@[i as int].0@, val@[i as int].1@));
            let ghost before = self@;
            if *field == name_key {
                self.name = value.as_str().unwrap().clone();
            } else if *field == age_key {
                self.age = *value.as_int().unwrap();
            } else if *field == male_key {
                self.male = *value.as_bool().unwrap();
            } else if *field == attach_key {
                copy_slice(value.as_binary().unwrap().as_slice(), &mut self.attach);
            } else if *field == tel_key {
                let items: &Vec<Object> = value.as_list().unwrap();
                let ghost texts = texts_of(elements_of(value@));
                assert(elements_of(value@) == objects_model(items@));
                assert forall|k: int| 0 <= k < items@.len() implies (#[trigger] items@[k]) is Str
                    && items@[k]->Str_0@ == texts[k] by {
                    assert(objects_model(items@)[k] == items@[k]@);
                }
                let mut j: usize = 0;
                while j < items.len()
                    invariant
                        j <= items@.len(),
                        items@.len() == texts.len(),
                        forall|k: int| 0 <= k < items@.len() ==> (#[trigger] items@[k]) is Str,
                        forall|k: int|
                            0 <= k < items@.len() ==> (#[trigger] items@[k])->Str_0@ == texts[k],
                        self@ == (PersonModel {
                            tel: before.tel + texts.subrange(0, j as int),
                            ..before
                        }),
                    decreases items@.len() - j,
                {
                    let ghost tel_before = self@.tel;
                    self.tel.push(items[j].as_str().unwrap().clone());
                    assert(self@.tel =~= tel_before.push(texts[j as int]));
                    assert(self@.tel =~= before.tel + texts.subrange(0, j + 1));
                    j = j + 1;
                }
                assert(texts.subrange(0, j as int) =~= texts);
            }
            assert(self@ == with_field(before, val@[i as int].0@, val@[i as int].1@));
            i = i + 1;
        }
        Ok(())
    }
}

} // verus!
