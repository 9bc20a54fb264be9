use vstd::prelude::*;

verus! {

/// A decoded double, kept exact: the wire format gives a double as a small
/// whole number, as a count of thousandths or as its IEEE-754 bit pattern.
#[derive(Debug, Clone, Copy, PartialEq, Eq, Structural)]
pub enum DoubleValue {
    /// The whole number itself.
    Integral(u16),
    /// A count of thousandths: the number is this count times 0.001.
    Milli(i32),
    /// The 64 bits of an IEEE-754 double, most significant first.
    Bits(u64),
}

/// A decoded list.
#[derive(Debug, PartialEq)]
pub enum List {
    UTyped(Vec<Object>),
    Typed(String, Vec<Object>),
}

/// Any decoded value.
#[derive(Debug, PartialEq)]
pub enum Object {
    NULL,
    Boolean(bool),
    Integer(i32),
    Long(i64),
    Double(DoubleValue),
    Date(u64),
    Bin(Vec<u8>),
    Str(String),
    List(List),
}

/// The mathematical value of a `List`.
pub enum ListModel {
    UTyped(Seq<ObjectModel>),
    Typed(Seq<char>, Seq<ObjectModel>),
}

/// The mathematical value of an `Object`.
pub enum ObjectModel {
    Null,
    Boolean(bool),
    Integer(int),
    Long(int),
    Double(DoubleValue),
    Date(int),
    Bin(Seq<u8>),
    Str(Seq<char>),
    List(ListModel),
}

/// The values of the objects of `v`, in order.
pub open spec fn objects_model(v: Seq<Object>) -> Seq<ObjectModel>
    decreases v,
{
    Seq::new(v.len(), |i: int| if 0 <= i < v.len() { v[i]@ } else { ObjectModel::Null })
}

impl View for List {
    type V = ListModel;

    open spec fn view(&self) -> ListModel
        decreases self,
    {
        match self {
            List::UTyped(items) => ListModel::UTyped(objects_model(items@)),
            List::Typed(name, items) => ListModel::Typed(name@, objects_model(items@)),
        }
    }
}

impl View for Object {
    type V = ObjectModel;

    open spec fn view(&self) -> ObjectModel
        decreases self,
    {
        match self {
            Object::NULL => ObjectModel::Null,
            Object::Boolean(b) => ObjectModel::Boolean(*b),
            Object::Integer(v) => ObjectModel::Integer(*v as int),
            Object::Long(v) => ObjectModel::Long(*v as int),
            Object::Double(d) => ObjectModel::Double(*d),
            Object::Date(ms) => ObjectModel::Date(*ms as int),
            Object::Bin(bytes) => ObjectModel::Bin(bytes@),
            Object::Str(text) => ObjectModel::Str(text@),
            Object::List(list) => ObjectModel::List(list@),
        }
    }
}

impl Object {
    /// The text, if this is a string.
    pub fn as_str(&self) -> (r: Option<&String>)
        ensures
            match *self {
                Object::Str(val) => r == Some(&val),
                _ => r.is_none(),
            },
    {
        match self {
            Object::Str(val) => Some(val),
            _ => None,
        }
    }

    /// The truth value, if this is a boolean.
    pub fn as_bool(&self) -> (r: Option<&bool>)
        ensures
            match *self {
                Object::Boolean(val) => r == Some(&val),
                _ => r.is_none(),
            },
    {
        match self {
            Object::Boolean(val) => Some(val),
            _ => None,
        }
    }

    /// The number, if this is a 32-bit integer.
    pub fn as_int(&self) -> (r: Option<&i32>)
        ensures
            match *self {
                Object::Integer(val) => r == Some(&val),
                _ => r.is_none(),
            },
    {
        match self {
            Object::Integer(val) => Some(val),
            _ => None,
        }
    }

    /// The number, if this is a double.
    pub fn as_double(&self) -> (r: Option<&DoubleValue>)
        ensures
            match *self {
                Object::Double(val) => r == Some(&val),
                _ => r.is_none(),
            },
    {
        match self {
            Object::Double(val) => Some(val),
            _ => None,
        }
    }

    /// The number, if this is a 64-bit integer.
    pub fn as_long(&self) -> (r: Option<&i64>)
        ensures
            match *self {
                Object::Long(val) => r == Some(&val),
                _ => r.is_none(),
            },
    {
        match self {
            Object::Long(val) => Some(val),
            _ => None,
        }
    }

    /// The milliseconds since the epoch, if this is a date.
    pub fn as_utc(&self) -> (r: Option<&u64>)
        ensures
            match *self {
                Object::Date(val) => r == Some(&val),
                _ => r.is_none(),
            },
    {
        match self {
            Object::Date(val) => Some(val),
            _ => None,
        }
    }

    /// The bytes, if this is a binary value.
    pub fn as_binary(&self) -> (r: Option<&Vec<u8>>)
        ensures
            match *self {
                Object::Bin(val) => r == Some(&val),
                _ => r.is_none(),
            },
    {
        match self {
            Object::Bin(val) => Some(val),
            _ => None,
        }
    }

    /// The elements, if this is a list, typed or not.
    pub fn as_list(&self) -> (r: Option<&Vec<Object>>)
        ensures
            match *self {
                Object::List(List::UTyped(val)) => r == Some(&val),
                Object::List(List::Typed(_, val)) => r == Some(&val),
                _ => r.is_none(),
            },
    {
        match self {
            Object::List(list) => match list {
                List::UTyped(val) => Some(val),
                List::Typed(_, val) => Some(val),
            },
            _ => None,
        }
    }
}

} // verus!
