//! The wire format, as specification functions.
//!
//! Every decoder here reads the byte sequence `s` from position `pos` on and
//! gives either the decoded value with the number of bytes it took, or the
//! error that stops it. A decoder whose name ends in `_bytag` is handed a tag
//! byte that was read before `pos`; the others read their tag themselves and
//! count it among the bytes taken.

use vstd::prelude::*;
use crate::error::DecodeError;
use crate::value::{DoubleValue, ListModel, ObjectModel};

verus! {

/// `n` bytes can be read from position `pos` of `s`.
pub open spec fn avail(s: Seq<u8>, pos: int, n: int) -> bool {
    0 <= pos && 0 <= n && pos + n <= s.len()
}

/// The number of bytes of `s` from position `pos` on.
pub open spec fn remaining(s: Seq<u8>, pos: int) -> nat {
    if pos <= s.len() {
        (s.len() - pos) as nat
    } else {
        0
    }
}

/// The two bytes at `pos` as a big-endian unsigned number.
pub open spec fn be_u16(s: Seq<u8>, pos: int) -> int {
    s[pos] as int * 0x100 + s[pos + 1] as int
}

/// The four bytes at `pos` as a big-endian unsigned number.
pub open spec fn be_u32(s: Seq<u8>, pos: int) -> int {
    be_u16(s, pos) * 0x1_0000 + be_u16(s, pos + 2)
}

/// The eight bytes at `pos` as a big-endian unsigned number.
pub open spec fn be_u64(s: Seq<u8>, pos: int) -> int {
    be_u32(s, pos) * 0x1_0000_0000 + be_u32(s, pos + 4)
}

/// The four bytes at `pos` as a big-endian number in two's complement.
pub open spec fn be_i32(s: Seq<u8>, pos: int) -> int {
    if be_u32(s, pos) >= 0x8000_0000 {
        be_u32(s, pos) - 0x1_0000_0000
    } else {
        be_u32(s, pos)
    }
}

/// The eight bytes at `pos` as a big-endian number in two's complement.
pub open spec fn be_i64(s: Seq<u8>, pos: int) -> int {
    if be_u64(s, pos) >= 0x8000_0000_0000_0000 {
        be_u64(s, pos) - 0x1_0000_0000_0000_0000
    } else {
        be_u64(s, pos)
    }
}

/// The outcome of reading one byte, a tag or a length, and then what `r`
/// stands for: the same value or error, with that byte counted in.
pub open spec fn one_byte_then<T>(r: Result<(T, nat), DecodeError>) -> Result<(T, nat), DecodeError> {
    match r {
        Ok((v, n)) => Ok((v, n + 1)),
        Err(e) => Err(e),
    }
}

/// A boolean: the tag `T` is true, every other tag is false.
pub open spec fn decode_bool(s: Seq<u8>, pos: int) -> Result<(bool, nat), DecodeError> {
    if !avail(s, pos, 1) {
        Err(DecodeError::EndOfInput)
    } else {
        Ok((s[pos] == 0x54, 1))
    }
}

/// A 32-bit integer behind its tag.
pub open spec fn decode_int_bytag(s: Seq<u8>, pos: int, tag: u8) -> Result<
    (int, nat),
    DecodeError,
> {
    if 0x80 <= tag <= 0xbf {
        Ok((tag - 0x90, 0))
    } else if 0xc0 <= tag <= 0xcf {
        if avail(s, pos, 1) {
            Ok(((tag - 0xc8) * 0x100 + s[pos], 1))
        } else {
            Err(DecodeError::EndOfInput)
        }
    } else if 0xd0 <= tag <= 0xd7 {
        if avail(s, pos, 2) {
            Ok(((tag - 0xd4) * 0x1_0000 + 256 * s[pos] + s[pos + 1], 2))
        } else {
            Err(DecodeError::EndOfInput)
        }
    } else if tag == 0x49 || tag == 0x59 {
        if avail(s, pos, 4) {
            Ok((be_i32(s, pos), 4))
        } else {
            Err(DecodeError::EndOfInput)
        }
    } else {
        Err(DecodeError::UnrecognizedTag)
    }
}

/// A 32-bit integer.
pub open spec fn decode_int(s: Seq<u8>, pos: int) -> Result<(int, nat), DecodeError> {
    if !avail(s, pos, 1) {
        Err(DecodeError::EndOfInput)
    } else {
        one_byte_then(decode_int_bytag(s, pos + 1, s[pos]))
    }
}

/// A 64-bit integer behind its tag.
pub open spec fn decode_long_bytag(s: Seq<u8>, pos: int, tag: u8) -> Result<
    (int, nat),
    DecodeError,
> {
    if 0xd8 <= tag <= 0xef {
        Ok((tag - 0xe0, 0))
    } else if 0xf0 <= tag <= 0xff {
        if avail(s, pos, 1) {
            Ok(((tag - 0xf8) * 0x100 + s[pos], 1))
        } else {
            Err(DecodeError::EndOfInput)
        }
    } else if 0x38 <= tag <= 0x3f {
        if avail(s, pos, 2) {
            Ok(((tag - 0x3c) * 0x1_0000 + 256 * s[pos] + s[pos + 1], 2))
        } else {
            Err(DecodeError::EndOfInput)
        }
    } else if tag == 0x49 || tag == 0x59 {
        if avail(s, pos, 4) {
            Ok((be_i32(s, pos), 4))
        } else {
            Err(DecodeError::EndOfInput)
        }
    } else if tag == 0x4c {
        if avail(s, pos, 8) {
            Ok((be_i64(s, pos), 8))
        } else {
            Err(DecodeError::EndOfInput)
        }
    } else {
        Err(DecodeError::UnrecognizedTag)
    }
}

/// A 64-bit integer.
pub open spec fn decode_long(s: Seq<u8>, pos: int) -> Result<(int, nat), DecodeError> {
    if !avail(s, pos, 1) {
        Err(DecodeError::EndOfInput)
    } else {
        one_byte_then(decode_long_bytag(s, pos + 1, s[pos]))
    }
}

/// A date behind its tag, in milliseconds since the epoch: `J` carries the
/// milliseconds, `K` carries minutes.
pub open spec fn decode_utcdate_bytag(s: Seq<u8>, pos: int, tag: u8) -> Result<
    (int, nat),
    DecodeError,
> {
    if tag == 0x4a {
        if avail(s, pos, 8) {
            Ok((be_u64(s, pos), 8))
        } else {
            Err(DecodeError::EndOfInput)
        }
    } else if tag == 0x4b {
        if avail(s, pos, 4) {
            Ok((be_u32(s, pos) * 60000, 4))
        } else {
            Err(DecodeError::EndOfInput)
        }
    } else {
        Err(DecodeError::UnrecognizedTag)
    }
}

/// A date, in milliseconds since the epoch.
pub open spec fn decode_utcdate(s: Seq<u8>, pos: int) -> Result<(int, nat), DecodeError> {
    if !avail(s, pos, 1) {
        Err(DecodeError::EndOfInput)
    } else {
        one_byte_then(decode_utcdate_bytag(s, pos + 1, s[pos]))
    }
}

/// A double behind its tag.
pub open spec fn decode_double_bytag(s: Seq<u8>, pos: int, tag: u8) -> Result<
    (DoubleValue, nat),
    DecodeError,
> {
    if tag == 0x5b {
        Ok((DoubleValue::Integral(0), 0))
    } else if tag == 0x5c {
        Ok((DoubleValue::Integral(1), 0))
    } else if tag == 0x5d {
        if avail(s, pos, 1) {
            Ok((DoubleValue::Integral(s[pos] as u16), 1))
        } else {
            Err(DecodeError::EndOfInput)
        }
    } else if tag == 0x5e {
        if avail(s, pos, 2) {
            Ok((DoubleValue::Integral(be_u16(s, pos) as u16), 2))
        } else {
            Err(DecodeError::EndOfInput)
        }
    } else if tag == 0x5f {
        if avail(s, pos, 4) {
            Ok((DoubleValue::Milli(be_i32(s, pos) as i32), 4))
        } else {
            Err(DecodeError::EndOfInput)
        }
    } else if tag == 0x44 {
        if avail(s, pos, 8) {
            Ok((DoubleValue::Bits(be_u64(s, pos) as u64), 8))
        } else {
            Err(DecodeError::EndOfInput)
        }
    } else {
        Err(DecodeError::UnrecognizedTag)
    }
}

/// A double.
pub open spec fn decode_double(s: Seq<u8>, pos: int) -> Result<(DoubleValue, nat), DecodeError> {
    if !avail(s, pos, 1) {
        Err(DecodeError::EndOfInput)
    } else {
        one_byte_then(decode_double_bytag(s, pos + 1, s[pos]))
    }
}

/// One chunk of bytes: a 16-bit length and that many bytes.
pub open spec fn decode_byte_chunk(s: Seq<u8>, pos: int) -> Result<(Seq<u8>, nat), DecodeError> {
    if !avail(s, pos, 2) {
        Err(DecodeError::EndOfInput)
    } else if !avail(s, pos + 2, be_u16(s, pos)) {
        Err(DecodeError::EndOfInput)
    } else {
        Ok((s.subrange(pos + 2, pos + 2 + be_u16(s, pos)), (2 + be_u16(s, pos)) as nat))
    }
}

/// One chunk of a binary value and what follows it: unless the chunk is the
/// last, a tag byte and the next chunk. Only the tag `B` marks the next chunk
/// as the last.
pub open spec fn decode_binary_chunks(s: Seq<u8>, pos: int, last: bool) -> Result<
    (Seq<u8>, nat),
    DecodeError,
>
    decreases remaining(s, pos),
{
    match decode_byte_chunk(s, pos) {
        Err(e) => Err(e),
        Ok((data, n)) => if last {
            Ok((data, n))
        } else if !avail(s, pos + n, 1) {
            Err(DecodeError::EndOfInput)
        } else {
            match decode_binary_chunks(s, pos + n + 1, s[pos + n] == 0x42) {
                Ok((rest, m)) => Ok((data + rest, n + 1 + m)),
                Err(e) => Err(e),
            }
        },
    }
}

/// A binary value behind its tag.
pub open spec fn decode_binary_bytag(s: Seq<u8>, pos: int, tag: u8) -> Result<
    (Seq<u8>, nat),
    DecodeError,
> {
    if 0x20 <= tag <= 0x2f {
        if avail(s, pos, tag - 0x20) {
            Ok((s.subrange(pos, pos + tag - 0x20), (tag - 0x20) as nat))
        } else {
            Err(DecodeError::EndOfInput)
        }
    } else if 0x34 <= tag <= 0x37 {
        if !avail(s, pos, 1) {
            Err(DecodeError::EndOfInput)
        } else {
            let len = (tag - 0x34) * 256 + s[pos];
            if avail(s, pos + 1, len) {
                Ok((s.subrange(pos + 1, pos + 1 + len), (1 + len) as nat))
            } else {
                Err(DecodeError::EndOfInput)
            }
        }
    } else if tag == 0x41 || tag == 0x42 {
        decode_binary_chunks(s, pos, tag == 0x42)
    } else {
        Err(DecodeError::UnrecognizedTag)
    }
}

/// A binary value.
pub open spec fn decode_binary(s: Seq<u8>, pos: int) -> Result<(Seq<u8>, nat), DecodeError> {
    if !avail(s, pos, 1) {
        Err(DecodeError::EndOfInput)
    } else {
        one_byte_then(decode_binary_bytag(s, pos + 1, s[pos]))
    }
}

/// `cp` is a Unicode scalar value: a code point that is no surrogate.
pub open spec fn is_scalar_value(cp: u32) -> bool {
    cp < 0xD800 || (0xE000 <= cp && cp <= 0x10FFFF)
}

/// The code point of one character in the format's UTF-8: one byte below
/// `0x80`, two bytes where the first begins with the bits `110`, and three
/// bytes in every other case.
pub open spec fn decode_utf8(s: Seq<u8>, pos: int) -> Result<(u32, nat), DecodeError> {
    if !avail(s, pos, 1) {
        Err(DecodeError::EndOfInput)
    } else if s[pos] < 0x80 {
        Ok((s[pos] as u32, 1))
    } else if s[pos] & 0xe0 == 0xc0 {
        if avail(s, pos, 2) {
            Ok(((((s[pos] & 0x1f) as u32) << 6) | ((s[pos + 1] & 0x3f) as u32), 2))
        } else {
            Err(DecodeError::EndOfInput)
        }
    } else {
        if avail(s, pos, 3) {
            Ok(
                (
                    (((s[pos] & 0x0f) as u32) << 12) | (((s[pos + 1] & 0x3f) as u32) << 6) | ((s[pos
                        + 2] & 0x3f) as u32),
                    3,
                ),
            )
        } else {
            Err(DecodeError::EndOfInput)
        }
    }
}

/// `count` characters: the first `count - 1` of them, then one more.
pub open spec fn decode_chars(s: Seq<u8>, pos: int, count: nat) -> Result<
    (Seq<char>, nat),
    DecodeError,
>
    decreases count,
{
    if count == 0 {
        Ok((Seq::<char>::empty(), 0))
    } else {
        match decode_chars(s, pos, (count - 1) as nat) {
            Err(e) => Err(e),
            Ok((text, n)) => match decode_utf8(s, pos + n) {
                Err(e) => Err(e),
                Ok((cp, k)) => if is_scalar_value(cp) {
                    Ok((text.push(cp as char), n + k))
                } else {
                    Err(DecodeError::InvalidCodepoint)
                },
            },
        }
    }
}

/// One chunk of a string: a 16-bit count and that many characters.
pub open spec fn decode_char_chunk(s: Seq<u8>, pos: int) -> Result<(Seq<char>, nat), DecodeError> {
    if !avail(s, pos, 2) {
        Err(DecodeError::EndOfInput)
    } else {
        match decode_chars(s, pos + 2, be_u16(s, pos) as nat) {
            Err(e) => Err(e),
            Ok((text, n)) => Ok((text, n + 2)),
        }
    }
}

/// One chunk of a string and what follows it: unless the chunk is the last, a
/// tag byte and the next chunk. Only the tag `S` marks the next chunk as the
/// last.
pub open spec fn decode_string_chunks(s: Seq<u8>, pos: int, last: bool) -> Result<
    (Seq<char>, nat),
    DecodeError,
>
    decreases remaining(s, pos),
{
    match decode_char_chunk(s, pos) {
        Err(e) => Err(e),
        Ok((text, n)) => if last {
            Ok((text, n))
        } else if !avail(s, pos + n, 1) {
            Err(DecodeError::EndOfInput)
        } else {
            match decode_string_chunks(s, pos + n + 1, s[pos + n] == 0x53) {
                Ok((rest, m)) => Ok((text + rest, n + 1 + m)),
                Err(e) => Err(e),
            }
        },
    }
}

/// `tag` begins a string.
pub open spec fn is_string_tag(tag: u8) -> bool {
    tag <= 0x1f || (0x30 <= tag <= 0x33) || tag == 0x52 || tag == 0x53
}

/// A string behind its tag.
pub open spec fn decode_string_bytag(s: Seq<u8>, pos: int, tag: u8) -> Result<
    (Seq<char>, nat),
    DecodeError,
> {
    if tag <= 0x1f {
        decode_chars(s, pos, tag as nat)
    } else if 0x30 <= tag <= 0x33 {
        if !avail(s, pos, 1) {
            Err(DecodeError::EndOfInput)
        } else {
            one_byte_then(decode_chars(s, pos + 1, ((tag - 0x30) * 256 + s[pos]) as nat))
        }
    } else if tag == 0x52 || tag == 0x53 {
        decode_string_chunks(s, pos, tag == 0x53)
    } else {
        Err(DecodeError::UnrecognizedTag)
    }
}

/// A string.
pub open spec fn decode_string(s: Seq<u8>, pos: int) -> Result<(Seq<char>, nat), DecodeError> {
    if !avail(s, pos, 1) {
        Err(DecodeError::EndOfInput)
    } else {
        one_byte_then(decode_string_bytag(s, pos + 1, s[pos]))
    }
}

/// The type table `after` is the table `before` with names appended.
pub open spec fn extends(after: Seq<Seq<char>>, before: Seq<Seq<char>>) -> bool {
    before.len() <= after.len() && forall|i: int| 0 <= i < before.len() ==> after[i] == before[i]
}

/// The name of a list's type, with the type table after it. A name written
/// out as a string is appended to the table. Anything else is an integer that
/// names an entry of the table, which must exist.
pub open spec fn decode_type(s: Seq<u8>, pos: int, types: Seq<Seq<char>>) -> Result<
    (Seq<char>, nat, Seq<Seq<char>>),
    DecodeError,
> {
    if !avail(s, pos, 1) {
        Err(DecodeError::EndOfInput)
    } else if is_string_tag(s[pos]) {
        match decode_string(s, pos) {
            Ok((name, n)) => Ok((name, n, types.push(name))),
            Err(e) => Err(e),
        }
    } else if types.len() == 0 {
        Err(DecodeError::UnresolvedTypeReference)
    } else {
        match decode_int(s, pos) {
            Ok((index, n)) => if 0 <= index < types.len() {
                Ok((types[index], n, types))
            } else {
                Err(DecodeError::UnresolvedTypeReference)
            },
            Err(e) => Err(e),
        }
    }
}

/// `count` strings, one after the other; only their length in bytes is kept.
pub open spec fn decode_field_names(s: Seq<u8>, pos: int, count: nat) -> Result<nat, DecodeError>
    decreases count,
{
    if count == 0 {
        Ok(0)
    } else {
        match decode_field_names(s, pos, (count - 1) as nat) {
            Err(e) => Err(e),
            Ok(n) => match decode_string(s, pos + n) {
                Err(e) => Err(e),
                Ok((_, k)) => Ok(n + k),
            },
        }
    }
}

/// The number of elements that a list with the written length `len` holds: a
/// negative length stands for none.
pub open spec fn element_count(len: int) -> nat {
    if len < 0 {
        0
    } else {
        len as nat
    }
}

/// What stands behind the tag `C`: a class definition (a name, a field count
/// and that many field names) and one object. Only their length in bytes and
/// the type table after them are kept.
pub open spec fn decode_class_bytag(s: Seq<u8>, pos: int, types: Seq<Seq<char>>) -> Result<
    (nat, Seq<Seq<char>>),
    DecodeError,
>
    decreases remaining(s, pos), 2nat, 0nat,
{
    match decode_string(s, pos) {
        Err(e) => Err(e),
        Ok((_, a)) => match decode_int(s, pos + a) {
            Err(e) => Err(e),
            Ok((fields, b)) => match decode_field_names(s, pos + a + b, element_count(fields)) {
                Err(e) => Err(e),
                Ok(c) => match decode_object(s, pos + a + b + c, types) {
                    Err(e) => Err(e),
                    Ok((_, d, after)) => Ok((a + b + c + d, after)),
                },
            },
        },
    }
}

/// `count` objects, one after the other: the first `count - 1` of them, then
/// one more. The type table is handed from each to the next.
pub open spec fn decode_elements(s: Seq<u8>, pos: int, types: Seq<Seq<char>>, count: nat) -> Result<
    (Seq<ObjectModel>, nat, Seq<Seq<char>>),
    DecodeError,
>
    decreases remaining(s, pos), 1nat, count,
{
    if count == 0 {
        Ok((Seq::<ObjectModel>::empty(), 0, types))
    } else {
        match decode_elements(s, pos, types, (count - 1) as nat) {
            Err(e) => Err(e),
            Ok((items, n, mid)) => match decode_object(s, pos + n, mid) {
                Err(e) => Err(e),
                Ok((item, k, after)) => Ok((items.push(item), n + k, after)),
            },
        }
    }
}

/// A list behind its tag. `0x56` is a typed list of fixed length, `0x58` an
/// untyped one. `0x55` carries a type and no element. Every other tag is an
/// empty untyped list.
pub open spec fn decode_list_bytag(s: Seq<u8>, pos: int, types: Seq<Seq<char>>, tag: u8) -> Result<
    (ListModel, nat, Seq<Seq<char>>),
    DecodeError,
>
    decreases remaining(s, pos), 2nat, 0nat,
{
    if tag == 0x55 {
        match decode_type(s, pos, types) {
            Err(e) => Err(e),
            Ok((_, n, mid)) => Ok((ListModel::UTyped(Seq::<ObjectModel>::empty()), n, mid)),
        }
    } else if tag == 0x56 {
        match decode_type(s, pos, types) {
            Err(e) => Err(e),
            Ok((name, a, mid)) => match decode_int(s, pos + a) {
                Err(e) => Err(e),
                Ok((len, b)) => match decode_elements(s, pos + a + b, mid, element_count(len)) {
                    Err(e) => Err(e),
                    Ok((items, c, after)) => Ok((ListModel::Typed(name, items), a + b + c, after)),
                },
            },
        }
    } else if tag == 0x58 {
        match decode_int(s, pos) {
            Err(e) => Err(e),
            Ok((len, b)) => match decode_elements(s, pos + b, types, element_count(len)) {
                Err(e) => Err(e),
                Ok((items, c, after)) => Ok((ListModel::UTyped(items), b + c, after)),
            },
        }
    } else {
        Ok((ListModel::UTyped(Seq::<ObjectModel>::empty()), 0, types))
    }
}

/// A list.
pub open spec fn decode_list(s: Seq<u8>, pos: int, types: Seq<Seq<char>>) -> Result<
    (ListModel, nat, Seq<Seq<char>>),
    DecodeError,
> {
    if !avail(s, pos, 1) {
        Err(DecodeError::EndOfInput)
    } else {
        match decode_list_bytag(s, pos + 1, types, s[pos]) {
            Ok((list, n, after)) => Ok((list, n + 1, after)),
            Err(e) => Err(e),
        }
    }
}

/// Any value, chosen by its tag, with the type table after it. A tag that
/// begins no known form is a null.
pub open spec fn decode_object(s: Seq<u8>, pos: int, types: Seq<Seq<char>>) -> Result<
    (ObjectModel, nat, Seq<Seq<char>>),
    DecodeError,
>
    decreases remaining(s, pos), 0nat, 0nat,
{
    if !avail(s, pos, 1) {
        Err(DecodeError::EndOfInput)
    } else {
        let tag = s[pos];
        if tag == 0x4e {
            Ok((ObjectModel::Null, 1, types))
        } else if tag == 0x54 {
            Ok((ObjectModel::Boolean(true), 1, types))
        } else if tag == 0x46 {
            Ok((ObjectModel::Boolean(false), 1, types))
        } else if (0x80 <= tag <= 0xd7) || tag == 0x49 {
            match decode_int_bytag(s, pos + 1, tag) {
                Ok((v, n)) => Ok((ObjectModel::Integer(v), n + 1, types)),
                Err(e) => Err(e),
            }
        } else if 0xd8 <= tag || (0x38 <= tag <= 0x3f) || tag == 0x59 || tag == 0x4c {
            match decode_long_bytag(s, pos + 1, tag) {
                Ok((v, n)) => Ok((ObjectModel::Long(v), n + 1, types)),
                Err(e) => Err(e),
            }
        } else if (0x5b <= tag <= 0x5f) || tag == 0x44 {
            match decode_double_bytag(s, pos + 1, tag) {
                Ok((v, n)) => Ok((ObjectModel::Double(v), n + 1, types)),
                Err(e) => Err(e),
            }
        } else if tag == 0x4a || tag == 0x4b {
            match decode_utcdate_bytag(s, pos + 1, tag) {
                Ok((v, n)) => Ok((ObjectModel::Date(v), n + 1, types)),
                Err(e) => Err(e),
            }
        } else if is_string_tag(tag) {
            match decode_string_bytag(s, pos + 1, tag) {
                Ok((v, n)) => Ok((ObjectModel::Str(v), n + 1, types)),
                Err(e) => Err(e),
            }
        } else if (0x20 <= tag <= 0x2f) || (0x34 <= tag <= 0x37) || tag == 0x41 || tag == 0x42 {
            match decode_binary_bytag(s, pos + 1, tag) {
                Ok((v, n)) => Ok((ObjectModel::Bin(v), n + 1, types)),
                Err(e) => Err(e),
            }
        } else if 0x55 <= tag <= 0x58 {
            match decode_list_bytag(s, pos + 1, types, tag) {
                Ok((v, n, after)) => Ok((ObjectModel::List(v), n + 1, after)),
                Err(e) => Err(e),
            }
        } else if 0x78 <= tag <= 0x7f {
            match decode_elements(s, pos + 1, types, (tag - 0x78) as nat) {
                Ok((items, n, after)) => Ok(
                    (ObjectModel::List(ListModel::UTyped(items)), n + 1, after),
                ),
                Err(e) => Err(e),
            }
        } else if tag == 0x43 {
            match decode_class_bytag(s, pos + 1, types) {
                Ok((n, after)) => Ok((ObjectModel::Null, n + 1, after)),
                Err(e) => Err(e),
            }
        } else {
            Ok((ObjectModel::Null, 1, types))
        }
    }
}

} // verus!
