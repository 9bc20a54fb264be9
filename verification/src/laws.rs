//! What holds of the wire format for every input.

use vstd::prelude::*;
use crate::error::DecodeError;
use crate::grammar::{
    avail, decode_binary, decode_binary_chunks, decode_bool, decode_chars, decode_class_bytag,
    decode_double, decode_elements, decode_field_names, decode_int, decode_list,
    decode_list_bytag, decode_long, decode_object, decode_string, decode_string_chunks,
    decode_type, decode_utcdate, element_count, extends, is_string_tag, remaining,
};

verus! {

/// Every `v` from -16 to 47, written as the single byte `0x90 + v`, decodes
/// as an integer to `v` again, and takes that one byte.
pub proof fn law_compact_int_round_trip(s: Seq<u8>, pos: int, v: int)
    requires
        -16 <= v <= 47,
        avail(s, pos, 1),
        s[pos] == 0x90 + v,
    ensures
        decode_int(s, pos) == Ok::<(int, nat), DecodeError>((v, 1)),
{
}

/// A long takes a single byte exactly where its tag lies from `0xd8` to
/// `0xef`. Its value is then the tag less `0xe0`, from -8 to 15.
pub proof fn law_compact_long(s: Seq<u8>, pos: int)
    requires
        avail(s, pos, 1),
    ensures
        (0xd8 <= s[pos] <= 0xef) <==> (decode_long(s, pos) matches Ok((_, n)) && n == 1nat),
        (0xd8 <= s[pos] <= 0xef) ==> decode_long(s, pos) == Ok::<(int, nat), DecodeError>(
            (s[pos] - 0xe0, 1),
        ),
        decode_long(s, pos) matches Ok((v, n)) ==> (n == 1 ==> -8 <= v <= 15),
{
}

/// With an empty type table, a type that is not written out as a string
/// cannot be resolved: reading it fails, and with no other error.
pub proof fn law_unresolved_type(s: Seq<u8>, pos: int)
    requires
        avail(s, pos, 1),
        !is_string_tag(s[pos]),
    ensures
        decode_type(s, pos, Seq::<Seq<char>>::empty()) == Err::<
            (Seq<char>, nat, Seq<Seq<char>>),
            DecodeError,
        >(DecodeError::UnresolvedTypeReference),
{
}

/// A type reference is resolved only against entries that the table holds:
/// where a type is read without growing the table, the name read is one of
/// the table's entries.
pub proof fn law_type_reference_in_table(s: Seq<u8>, pos: int, types: Seq<Seq<char>>)
    requires
        avail(s, pos, 1),
        !is_string_tag(s[pos]),
    ensures
        decode_type(s, pos, types) matches Ok((name, _, after)) ==> after == types
            && types.contains(name),
{
}

/// The type table only grows, and by at most one name for each type read.
pub proof fn law_type_table_append_only(s: Seq<u8>, pos: int, types: Seq<Seq<char>>)
    ensures
        decode_type(s, pos, types) matches Ok((name, _, after)) ==> after == types || after
            == types.push(name),
{
}

/// Every successful read of a primitive takes at least one byte, so the
/// cursor ends strictly beyond where it began.
pub proof fn law_primitive_reads_advance(s: Seq<u8>, pos: int)
    ensures
        decode_bool(s, pos) matches Ok((_, n)) ==> n >= 1,
        decode_int(s, pos) matches Ok((_, n)) ==> n >= 1,
        decode_long(s, pos) matches Ok((_, n)) ==> n >= 1,
        decode_double(s, pos) matches Ok((_, n)) ==> n >= 1,
        decode_utcdate(s, pos) matches Ok((_, n)) ==> n >= 1,
        decode_binary(s, pos) matches Ok((_, n)) ==> n >= 1,
        decode_string(s, pos) matches Ok((_, n)) ==> n >= 1,
{
}

/// Every successful read of a type name, a list or an object takes at least
/// one byte, so the cursor ends strictly beyond where it began.
pub proof fn law_object_reads_advance(s: Seq<u8>, pos: int, types: Seq<Seq<char>>)
    ensures
        decode_type(s, pos, types) matches Ok((_, n, _)) ==> n >= 1,
        decode_list(s, pos, types) matches Ok((_, n, _)) ==> n >= 1,
        decode_object(s, pos, types) matches Ok((_, n, _)) ==> n >= 1,
{
}

/// A run of characters that decodes ends within the buffer.
pub proof fn law_chars_within(s: Seq<u8>, pos: int, count: nat)
    requires
        0 <= pos <= s.len(),
    ensures
        decode_chars(s, pos, count) matches Ok((_, n)) ==> pos + n <= s.len(),
    decreases count,
{
    if count > 0 {
        law_chars_within(s, pos, (count - 1) as nat);
    }
}

/// A chunked binary value that decodes ends within the buffer.
pub proof fn law_binary_chunks_within(s: Seq<u8>, pos: int, last: bool)
    requires
        0 <= pos <= s.len(),
    ensures
        decode_binary_chunks(s, pos, last) matches Ok((_, n)) ==> pos + n <= s.len(),
    decreases remaining(s, pos),
{
    if let Ok((_, n)) = decode_binary_chunks(s, pos, last) {
        if !last {
            let k = 2 + s[pos] as int * 0x100 + s[pos + 1] as int;
            law_binary_chunks_within(s, pos + k + 1, s[pos + k] == 0x42);
        }
    }
}

/// A chunked string that decodes ends within the buffer.
pub proof fn law_string_chunks_within(s: Seq<u8>, pos: int, last: bool)
    requires
        0 <= pos <= s.len(),
    ensures
        decode_string_chunks(s, pos, last) matches Ok((_, n)) ==> pos + n <= s.len(),
    decreases remaining(s, pos),
{
    if let Ok((_, n)) = decode_string_chunks(s, pos, last) {
        let count = (s[pos] as int * 0x100 + s[pos + 1] as int) as nat;
        law_chars_within(s, pos + 2, count);
        if !last {
            let k = decode_chars(s, pos + 2, count)->Ok_0.1 + 2;
            law_string_chunks_within(s, pos + k + 1, s[pos + k] == 0x53);
        }
    }
}

/// A primitive that decodes ends within the buffer: no read passes the end.
pub proof fn law_primitive_reads_within(s: Seq<u8>, pos: int)
    requires
        0 <= pos,
    ensures
        decode_bool(s, pos) matches Ok((_, n)) ==> pos + n <= s.len(),
        decode_int(s, pos) matches Ok((_, n)) ==> pos + n <= s.len(),
        decode_long(s, pos) matches Ok((_, n)) ==> pos + n <= s.len(),
        decode_double(s, pos) matches Ok((_, n)) ==> pos + n <= s.len(),
        decode_utcdate(s, pos) matches Ok((_, n)) ==> pos + n <= s.len(),
        decode_binary(s, pos) matches Ok((_, n)) ==> pos + n <= s.len(),
        decode_string(s, pos) matches Ok((_, n)) ==> pos + n <= s.len(),
{
    if avail(s, pos, 1) {
        let tag = s[pos];
        law_binary_chunks_within(s, pos + 1, tag == 0x42);
        law_string_chunks_within(s, pos + 1, tag == 0x53);
        law_chars_within(s, pos + 1, tag as nat);
        if avail(s, pos + 1, 1) {
            law_chars_within(s, pos + 2, ((tag - 0x30) * 256 + s[pos + 1]) as nat);
        }
    }
}

/// A run of field names that decodes ends within the buffer.
pub proof fn law_field_names_within(s: Seq<u8>, pos: int, count: nat)
    requires
        0 <= pos <= s.len(),
    ensures
        decode_field_names(s, pos, count) matches Ok(n) ==> pos + n <= s.len(),
    decreases count,
{
    if count > 0 {
        law_field_names_within(s, pos, (count - 1) as nat);
        if let Ok(n) = decode_field_names(s, pos, (count - 1) as nat) {
            law_primitive_reads_within(s, pos + n);
        }
    }
}

/// A type name that decodes ends within the buffer.
pub proof fn law_type_within(s: Seq<u8>, pos: int, types: Seq<Seq<char>>)
    requires
        0 <= pos,
    ensures
        decode_type(s, pos, types) matches Ok((_, n, _)) ==> pos + n <= s.len(),
{
    law_primitive_reads_within(s, pos);
}

/// A run of objects that decodes ends within the buffer.
pub proof fn law_elements_within(s: Seq<u8>, pos: int, types: Seq<Seq<char>>, count: nat)
    requires
        0 <= pos <= s.len(),
    ensures
        decode_elements(s, pos, types, count) matches Ok((_, n, _)) ==> pos + n <= s.len(),
    decreases remaining(s, pos), 1nat, count,
{
    if count > 0 {
        law_elements_within(s, pos, types, (count - 1) as nat);
        if let Ok((_, n, mid)) = decode_elements(s, pos, types, (count - 1) as nat) {
            law_object_within(s, pos + n, mid);
        }
    }
}

/// What stands behind a class tag, where it decodes, ends within the buffer.
pub proof fn law_class_within(s: Seq<u8>, pos: int, types: Seq<Seq<char>>)
    requires
        0 <= pos <= s.len(),
    ensures
        decode_class_bytag(s, pos, types) matches Ok((n, _)) ==> pos + n <= s.len(),
    decreases remaining(s, pos), 2nat, 0nat,
{
    law_primitive_reads_within(s, pos);
    if let Ok((_, a)) = decode_string(s, pos) {
        law_primitive_reads_within(s, pos + a);
        if let Ok((fields, b)) = decode_int(s, pos + a) {
            let count = element_count(fields);
            law_field_names_within(s, pos + a + b, count);
            if let Ok(c) = decode_field_names(s, pos + a + b, count) {
                law_object_within(s, pos + a + b + c, types);
            }
        }
    }
}

/// A list behind its tag, where it decodes, ends within the buffer.
pub proof fn law_list_bytag_within(s: Seq<u8>, pos: int, types: Seq<Seq<char>>, tag: u8)
    requires
        0 <= pos <= s.len(),
    ensures
        decode_list_bytag(s, pos, types, tag) matches Ok((_, n, _)) ==> pos + n <= s.len(),
    decreases remaining(s, pos), 2nat, 0nat,
{
    law_type_within(s, pos, types);
    law_primitive_reads_within(s, pos);
    if tag == 0x56 {
        if let Ok((_, a, mid)) = decode_type(s, pos, types) {
            law_primitive_reads_within(s, pos + a);
            if let Ok((len, b)) = decode_int(s, pos + a) {
                law_elements_within(s, pos + a + b, mid, element_count(len));
            }
        }
    } else if tag == 0x58 {
        if let Ok((len, b)) = decode_int(s, pos) {
            law_elements_within(s, pos + b, types, element_count(len));
        }
    }
}

/// An object that decodes ends within the buffer: the cursor never passes the
/// end of the bytes it reads.
pub proof fn law_object_within(s: Seq<u8>, pos: int, types: Seq<Seq<char>>)
    requires
        0 <= pos,
    ensures
        decode_object(s, pos, types) matches Ok((_, n, _)) ==> pos + n <= s.len(),
    decreases remaining(s, pos), 0nat, 0nat,
{
    if avail(s, pos, 1) {
        let tag = s[pos];
        law_primitive_reads_within(s, pos);
        if 0x55 <= tag <= 0x58 {
            law_list_bytag_within(s, pos + 1, types, tag);
        } else if 0x78 <= tag <= 0x7f {
            law_elements_within(s, pos + 1, types, (tag - 0x78) as nat);
        } else if tag == 0x43 {
            law_class_within(s, pos + 1, types);
        }
    }
}

/// A list that decodes ends within the buffer.
pub proof fn law_list_within(s: Seq<u8>, pos: int, types: Seq<Seq<char>>)
    requires
        0 <= pos,
    ensures
        decode_list(s, pos, types) matches Ok((_, n, _)) ==> pos + n <= s.len(),
{
    if avail(s, pos, 1) {
        law_list_bytag_within(s, pos + 1, types, s[pos]);
    }
}

/// Decoding a run of objects only appends to the type table.
pub proof fn law_elements_extend_types(s: Seq<u8>, pos: int, types: Seq<Seq<char>>, count: nat)
    ensures
        decode_elements(s, pos, types, count) matches Ok((_, _, after)) ==> extends(after, types),
    decreases remaining(s, pos), 1nat, count,
{
    if count > 0 {
        law_elements_extend_types(s, pos, types, (count - 1) as nat);
        if let Ok((_, n, mid)) = decode_elements(s, pos, types, (count - 1) as nat) {
            law_object_extends_types(s, pos + n, mid);
        }
    }
}

/// Decoding what stands behind a class tag only appends to the type table.
pub proof fn law_class_extends_types(s: Seq<u8>, pos: int, types: Seq<Seq<char>>)
    ensures
        decode_class_bytag(s, pos, types) matches Ok((_, after)) ==> extends(after, types),
    decreases remaining(s, pos), 2nat, 0nat,
{
    if let Ok((_, a)) = decode_string(s, pos) {
        if let Ok((fields, b)) = decode_int(s, pos + a) {
            if let Ok(c) = decode_field_names(s, pos + a + b, element_count(fields)) {
                law_object_extends_types(s, pos + a + b + c, types);
            }
        }
    }
}

/// Decoding a list behind its tag only appends to the type table.
pub proof fn law_list_bytag_extends_types(s: Seq<u8>, pos: int, types: Seq<Seq<char>>, tag: u8)
    ensures
        decode_list_bytag(s, pos, types, tag) matches Ok((_, _, after)) ==> extends(after, types),
    decreases remaining(s, pos), 2nat, 0nat,
{
    if tag == 0x56 {
        if let Ok((_, a, mid)) = decode_type(s, pos, types) {
            if let Ok((len, b)) = decode_int(s, pos + a) {
                law_elements_extend_types(s, pos + a + b, mid, element_count(len));
            }
        }
    } else if tag == 0x58 {
        if let Ok((len, b)) = decode_int(s, pos) {
            law_elements_extend_types(s, pos + b, types, element_count(len));
        }
    }
}

/// The type table is append-only: decoding an object leaves every name that
/// the table held at its index, and only adds names behind them.
pub proof fn law_object_extends_types(s: Seq<u8>, pos: int, types: Seq<Seq<char>>)
    ensures
        decode_object(s, pos, types) matches Ok((_, _, after)) ==> extends(after, types),
    decreases remaining(s, pos), 0nat, 0nat,
{
    if avail(s, pos, 1) {
        let tag = s[pos];
        if 0x55 <= tag <= 0x58 {
            law_list_bytag_extends_types(s, pos + 1, types, tag);
        } else if 0x78 <= tag <= 0x7f {
            law_elements_extend_types(s, pos + 1, types, (tag - 0x78) as nat);
        } else if tag == 0x43 {
            law_class_extends_types(s, pos + 1, types);
        }
    }
}

} // verus!
