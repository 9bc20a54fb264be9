//! The decoder: a cursor over a byte buffer, a table of type names, and one
//! reader for each kind of value.

use vstd::prelude::*;
use vstd::string::StringExecFns;
use crate::cursor::Cursor;
use crate::error::DecodeError;
use crate::grammar::{
    avail, decode_binary, decode_binary_bytag, decode_binary_chunks, decode_bool,
    decode_byte_chunk, decode_chars, decode_class_bytag, decode_double, decode_double_bytag,
    decode_elements, decode_field_names, decode_int, decode_int_bytag, decode_list,
    decode_list_bytag, decode_long, decode_long_bytag, decode_object, decode_string,
    decode_string_bytag, decode_string_chunks, decode_type, decode_utcdate, decode_utcdate_bytag,
    decode_utf8, extends, is_scalar_value, remaining,
};
use crate::value::{objects_model, DoubleValue, List, Object, ObjectModel};

verus! {

/// Appends the bytes of `slice` to `target`.
pub fn copy_slice(slice: &[u8], target: &mut Vec<u8>)
    ensures
        final(target)@ == old(target)@ + slice@,
{
    let ghost before = target@;
    let mut idx: usize = 0;
    while idx < slice.len()
        invariant
            idx <= slice@.len(),
            target@ == before + slice@.subrange(0, idx as int),
        decreases slice@.len() - idx,
    {
        target.push(slice[idx]);
        idx = idx + 1;
        assert(target@ =~= before + slice@.subrange(0, idx as int));
    }
    assert(slice@.subrange(0, idx as int) =~= slice@);
}

/// The character with the code point `cp`, by `char::from_u32`: there is one
/// exactly where `cp` is a Unicode scalar value, and its code point is `cp`.
#[verifier::external_body]
fn char_from_u32(cp: u32) -> (r: Option<char>)
    ensures
        r.is_some() <==> is_scalar_value(cp),
        r matches Some(c) ==> c == cp as char,
{
    char::from_u32(cp)
}

/// Appends the character `c` to `text`, by `String::push`.
#[verifier::external_body]
fn push_char(text: &mut String, c: char)
    ensures
        final(text)@ == old(text)@.push(c),
{
    text.push(c)
}

/// The outcome `r` of decoding what is left, seen from where decoding began:
/// `done` stands before what `r` yields, and `taken` bytes were read for it.
spec fn after<T>(done: Seq<T>, taken: int, r: Result<(Seq<T>, nat), DecodeError>) -> Result<
    (Seq<T>, nat),
    DecodeError,
> {
    match r {
        Ok((rest, n)) => Ok((done + rest, (taken + n) as nat)),
        Err(e) => Err(e),
    }
}

/// Once a character fails to decode, so does every longer run of characters.
proof fn lemma_chars_fail(s: Seq<u8>, pos: int, failed: nat, count: nat)
    requires
        failed <= count,
        decode_chars(s, pos, failed).is_err(),
    ensures
        decode_chars(s, pos, count) == decode_chars(s, pos, failed),
    decreases count,
{
    if failed < count {
        lemma_chars_fail(s, pos, failed, (count - 1) as nat);
    }
}

/// Once a field name fails to decode, so does every longer run of names.
proof fn lemma_field_names_fail(s: Seq<u8>, pos: int, failed: nat, count: nat)
    requires
        failed <= count,
        decode_field_names(s, pos, failed).is_err(),
    ensures
        decode_field_names(s, pos, count) == decode_field_names(s, pos, failed),
    decreases count,
{
    if failed < count {
        lemma_field_names_fail(s, pos, failed, (count - 1) as nat);
    }
}

/// Once an element fails to decode, so does every longer run of elements.
proof fn lemma_elements_fail(s: Seq<u8>, pos: int, types: Seq<Seq<char>>, failed: nat, count: nat)
    requires
        failed <= count,
        decode_elements(s, pos, types, failed).is_err(),
    ensures
        decode_elements(s, pos, types, count) == decode_elements(s, pos, types, failed),
    decreases count,
{
    if failed < count {
        lemma_elements_fail(s, pos, types, failed, (count - 1) as nat);
    }
}

/// A decoding session: a cursor over the bytes to decode, and the type names
/// seen so far.
pub struct Serializer<'a> {
    cursor: Cursor<'a>,
    type_ref: Vec<String>,
}

impl<'a> Serializer<'a> {
    /// The bytes that the session decodes.
    pub closed spec fn bytes(&self) -> Seq<u8> {
        self.cursor.bytes()
    }

    /// The position of the next byte to read.
    pub closed spec fn offset(&self) -> int {
        self.cursor.offset()
    }

    /// The type table: the names registered so far, in order.
    pub closed spec fn types(&self) -> Seq<Seq<char>> {
        Seq::new(self.type_ref@.len(), |i: int| self.type_ref@[i]@)
    }

    /// `self` and `other` decode the same bytes with the same type table.
    pub open spec fn same_session(&self, other: &Self) -> bool {
        self.bytes() == other.bytes() && self.types() == other.types()
    }

    /// A session at the start of `out_buff`, with an empty type table.
    pub fn new(out_buff: &'a [u8]) -> (r: Self)
        ensures
            r.bytes() == out_buff@,
            r.offset() == 0,
            r.types() == Seq::<Seq<char>>::empty(),
    {
        let r = Serializer { cursor: Cursor::new(out_buff), type_ref: Vec::new() };
        assert(r.types() =~= Seq::<Seq<char>>::empty());
        r
    }

    /// The type name at index `key` of the type table.
    pub fn get(&self, key: usize) -> (r: String)
        requires
            key < self.types().len(),
        ensures
            r@ == self.types()[key as int],
    {
        self.type_ref[key].clone()
    }

    /// Appends `val` to the type table and returns its index.
    pub fn put(&mut self, val: String) -> (r: usize)
        ensures
            final(self).types() == old(self).types().push(val@),
            r == old(self).types().len(),
            final(self).bytes() == old(self).bytes(),
            final(self).offset() == old(self).offset(),
    {
        self.type_ref.push(val);
        assert(self.types() =~= old(self).types().push(val@));
        self.type_ref.len() - 1
    }

    /// The number of bytes read so far.
    pub fn cur_offset(&self) -> (r: usize)
        ensures
            r == self.offset(),
            r <= self.bytes().len(),
    {
        self.cursor.position()
    }

    /// Moves the cursor `count` bytes on, if so many bytes are left.
    pub fn incr_offset(&mut self, count: usize) -> (r: Result<(), DecodeError>)
        ensures
            final(self).offset() >= old(self).offset(),
            final(self).same_session(old(self)),
            r.is_ok() <==> avail(old(self).bytes(), old(self).offset(), count as int),
            r.is_ok() ==> final(self).offset() == old(self).offset() + count,
            r.is_err() ==> r == Err::<(), DecodeError>(DecodeError::EndOfInput),
            r.is_err() ==> final(self).offset() == old(self).offset(),
    {
        match self.cursor.take(count) {
            Ok(_) => Ok(()),
            Err(e) => Err(e),
        }
    }

    /// Reads a boolean: the tag `T` is true, every other tag is false.
    pub fn read_bool(&mut self) -> (r: Result<bool, DecodeError>)
        ensures
            final(self).offset() >= old(self).offset(),
            r.is_ok() ==> final(self).offset() > old(self).offset(),
            final(self).same_session(old(self)),
            match (decode_bool(old(self).bytes(), old(self).offset()), r) {
                (Ok((v, n)), Ok(x)) => x == v && final(self).offset() == old(self).offset() + n,
                (Err(e), Err(f)) => e == f,
                _ => false,
            },
    {
        let tag: u8 = self.cursor.next_u8()?;
        Ok(tag == 0x54)
    }

    /// Reads a 32-bit integer whose tag, `tag`, has been read.
    pub fn read_int_bytag(&mut self, tag: u8) -> (r: Result<i32, DecodeError>)
        ensures
            final(self).offset() >= old(self).offset(),
            final(self).same_session(old(self)),
            match (decode_int_bytag(old(self).bytes(), old(self).offset(), tag), r) {
                (Ok((v, n)), Ok(x)) => x == v && final(self).offset() == old(self).offset() + n,
                (Err(e), Err(f)) => e == f,
                _ => false,
            },
    {
        if 0x80 <= tag && tag <= 0xbf {
            Ok((tag as i32) - 0x90)
        } else if 0xc0 <= tag && tag <= 0xcf {
            let l: u8 = self.cursor.next_u8()?;
            Ok(((tag as i32) - 0xc8) * 0x100 + (l as i32))
        } else if 0xd0 <= tag && tag <= 0xd7 {
            let hl: u16 = self.cursor.next_u16()?;
            Ok(((tag as i32) - 0xd4) * 0x1_0000 + (hl as i32))
        } else if tag == 0x49 || tag == 0x59 {
            self.cursor.next_i32()
        } else {
            Err(DecodeError::UnrecognizedTag)
        }
    }

    /// Reads a 32-bit integer.
    pub fn read_int(&mut self) -> (r: Result<i32, DecodeError>)
        ensures
            final(self).offset() >= old(self).offset(),
            r.is_ok() ==> final(self).offset() > old(self).offset(),
            final(self).same_session(old(self)),
            match (decode_int(old(self).bytes(), old(self).offset()), r) {
                (Ok((v, n)), Ok(x)) => x == v && final(self).offset() == old(self).offset() + n,
                (Err(e), Err(f)) => e == f,
                _ => false,
            },
    {
        let tag: u8 = self.cursor.next_u8()?;
        self.read_int_bytag(tag)
    }

    /// Reads a 64-bit integer whose tag, `tag`, has been read.
    pub fn read_long_bytag(&mut self, tag: u8) -> (r: Result<i64, DecodeError>)
        ensures
            final(self).offset() >= old(self).offset(),
            final(self).same_session(old(self)),
            match (decode_long_bytag(old(self).bytes(), old(self).offset(), tag), r) {
                (Ok((v, n)), Ok(x)) => x == v && final(self).offset() == old(self).offset() + n,
                (Err(e), Err(f)) => e == f,
                _ => false,
            },
    {
        if 0xd8 <= tag && tag <= 0xef {
            Ok((tag as i64) - 0xe0)
        } else if 0xf0 <= tag {
            let l: u8 = self.cursor.next_u8()?;
            Ok(((tag as i64) - 0xf8) * 0x100 + (l as i64))
        } else if 0x38 <= tag && tag <= 0x3f {
            let hl: u16 = self.cursor.next_u16()?;
            Ok(((tag as i64) - 0x3c) * 0x1_0000 + (hl as i64))
        } else if tag == 0x49 || tag == 0x59 {
            let v: i32 = self.cursor.next_i32()?;
            Ok(v as i64)
        } else if tag == 0x4c {
            self.cursor.next_i64()
        } else {
            Err(DecodeError::UnrecognizedTag)
        }
    }

    /// Reads a 64-bit integer.
    pub fn read_long(&mut self) -> (r: Result<i64, DecodeError>)
        ensures
            final(self).offset() >= old(self).offset(),
            r.is_ok() ==> final(self).offset() > old(self).offset(),
            final(self).same_session(old(self)),
            match (decode_long(old(self).bytes(), old(self).offset()), r) {
                (Ok((v, n)), Ok(x)) => x == v && final(self).offset() == old(self).offset() + n,
                (Err(e), Err(f)) => e == f,
                _ => false,
            },
    {
        let tag: u8 = self.cursor.next_u8()?;
        self.read_long_bytag(tag)
    }

    /// Reads a date whose tag, `tag`, has been read, in milliseconds since the
    /// epoch.
    pub fn read_utcdate_bytag(&mut self, tag: u8) -> (r: Result<u64, DecodeError>)
        ensures
            final(self).offset() >= old(self).offset(),
            final(self).same_session(old(self)),
            match (decode_utcdate_bytag(old(self).bytes(), old(self).offset(), tag), r) {
                (Ok((v, n)), Ok(x)) => x == v && final(self).offset() == old(self).offset() + n,
                (Err(e), Err(f)) => e == f,
                _ => false,
            },
    {
        if tag == 0x4a {
            self.cursor.next_u64()
        } else if tag == 0x4b {
            let minutes: u32 = self.cursor.next_u32()?;
            Ok((minutes as u64) * 60000)
        } else {
            Err(DecodeError::UnrecognizedTag)
        }
    }

    /// Reads a date, in milliseconds since the epoch.
    pub fn read_utcdate(&mut self) -> (r: Result<u64, DecodeError>)
        ensures
            final(self).offset() >= old(self).offset(),
            r.is_ok() ==> final(self).offset() > old(self).offset(),
            final(self).same_session(old(self)),
            match (decode_utcdate(old(self).bytes(), old(self).offset()), r) {
                (Ok((v, n)), Ok(x)) => x == v && final(self).offset() == old(self).offset() + n,
                (Err(e), Err(f)) => e == f,
                _ => false,
            },
    {
        let tag: u8 = self.cursor.next_u8()?;
        self.read_utcdate_bytag(tag)
    }

    /// Reads a double whose tag, `tag`, has been read.
    pub fn read_double_bytag(&mut self, tag: u8) -> (r: Result<DoubleValue, DecodeError>)
        ensures
            final(self).offset() >= old(self).offset(),
            final(self).same_session(old(self)),
            match (decode_double_bytag(old(self).bytes(), old(self).offset(), tag), r) {
                (Ok((v, n)), Ok(x)) => x == v && final(self).offset() == old(self).offset() + n,
                (Err(e), Err(f)) => e == f,
                _ => false,
            },
    {
        if tag == 0x5b {
            Ok(DoubleValue::Integral(0))
        } else if tag == 0x5c {
            Ok(DoubleValue::Integral(1))
        } else if tag == 0x5d {
            let b: u8 = self.cursor.next_u8()?;
            Ok(DoubleValue::Integral(b as u16))
        } else if tag == 0x5e {
            let hl: u16 = self.cursor.next_u16()?;
            Ok(DoubleValue::Integral(hl))
        } else if tag == 0x5f {
            let thousandths: i32 = self.cursor.next_i32()?;
            Ok(DoubleValue::Milli(thousandths))
        } else if tag == 0x44 {
            let bits: u64 = self.cursor.next_u64()?;
            Ok(DoubleValue::Bits(bits))
        } else {
            Err(DecodeError::UnrecognizedTag)
        }
    }

    /// Reads a double.
    pub fn read_double(&mut self) -> (r: Result<DoubleValue, DecodeError>)
        ensures
            final(self).offset() >= old(self).offset(),
            r.is_ok() ==> final(self).offset() > old(self).offset(),
            final(self).same_session(old(self)),
            match (decode_double(old(self).bytes(), old(self).offset()), r) {
                (Ok((v, n)), Ok(x)) => x == v && final(self).offset() == old(self).offset() + n,
                (Err(e), Err(f)) => e == f,
                _ => false,
            },
    {
        let tag: u8 = self.cursor.next_u8()?;
        self.read_double_bytag(tag)
    }

    /// Reads one chunk of bytes: a 16-bit length and that many bytes.
    pub fn parse_byte_chunks(&mut self) -> (r: Result<&'a [u8], DecodeError>)
        ensures
            final(self).offset() >= old(self).offset(),
            final(self).same_session(old(self)),
            match (decode_byte_chunk(old(self).bytes(), old(self).offset()), r) {
                (Ok((v, n)), Ok(x)) => x@ == v && final(self).offset() == old(self).offset() + n,
                (Err(e), Err(f)) => e == f,
                _ => false,
            },
    {
        let len: u16 = self.cursor.next_u16()?;
        self.cursor.take(len as usize)
    }

    /// Reads a binary value whose tag, `tag`, has been read.
    pub fn read_binary_bytag(&mut self, tag: u8) -> (r: Result<Vec<u8>, DecodeError>)
        ensures
            final(self).offset() >= old(self).offset(),
            final(self).same_session(old(self)),
            match (decode_binary_bytag(old(self).bytes(), old(self).offset(), tag), r) {
                (Ok((v, n)), Ok(x)) => x@ == v && final(self).offset() == old(self).offset() + n,
                (Err(e), Err(f)) => e == f,
                _ => false,
            },
    {
        let mut byte_buff: Vec<u8> = Vec::new();
        if 0x20 <= tag && tag <= 0x2f {
            let val = self.cursor.take((tag - 0x20) as usize)?;
            copy_slice(val, &mut byte_buff);
            Ok(byte_buff)
        } else if 0x34 <= tag && tag <= 0x37 {
            let tag2: u8 = self.cursor.next_u8()?;
            let len: usize = ((tag - 0x34) as usize) * 256 + (tag2 as usize);
            let val = self.cursor.take(len)?;
            copy_slice(val, &mut byte_buff);
            Ok(byte_buff)
        } else if tag == 0x41 || tag == 0x42 {
            let ghost s = self.bytes();
            let ghost start = self.offset();
            proof {
                use_type_invariant(&self.cursor);
                self.cursor.lemma_within();
            }
            let mut last_chunk: bool = tag == 0x42;
            let mut done: bool = false;
            while !done
                invariant
                    self.same_session(old(self)),
                    s == self.bytes(),
                    start == old(self).offset(),
                    tag == 0x41 || tag == 0x42,
                    start <= self.offset() <= s.len(),
                    !done ==> decode_binary_chunks(s, start, tag == 0x42) == after(
                        byte_buff@,
                        self.offset() - start,
                        decode_binary_chunks(s, self.offset(), last_chunk),
                    ),
                    done ==> decode_binary_chunks(s, start, tag == 0x42) == Ok::<
                        (Seq<u8>, nat),
                        DecodeError,
                    >((byte_buff@, (self.offset() - start) as nat)),
                decreases s.len() - self.offset() + (if done { 0int } else { 1int }),
            {
                let ghost before = byte_buff@;
                let val = self.parse_byte_chunks()?;
                copy_slice(val, &mut byte_buff);
                if last_chunk {
                    done = true;
                    assert(before + val@ + Seq::<u8>::empty() =~= before + val@);
                } else {
                    let next: u8 = self.cursor.next_u8()?;
                    last_chunk = next == 0x42;
                    assert forall|rest: Seq<u8>| before + (val@ + rest) == byte_buff@ + rest by {
                        assert(before + (val@ + rest) =~= byte_buff@ + rest);
                    }
                }
            }
            Ok(byte_buff)
        } else {
            Err(DecodeError::UnrecognizedTag)
        }
    }

    /// Reads a binary value.
    pub fn read_binary(&mut self) -> (r: Result<Vec<u8>, DecodeError>)
        ensures
            final(self).offset() >= old(self).offset(),
            r.is_ok() ==> final(self).offset() > old(self).offset(),
            final(self).same_session(old(self)),
            match (decode_binary(old(self).bytes(), old(self).offset()), r) {
                (Ok((v, n)), Ok(x)) => x@ == v && final(self).offset() == old(self).offset() + n,
                (Err(e), Err(f)) => e == f,
                _ => false,
            },
    {
        let tag: u8 = self.cursor.next_u8()?;
        self.read_binary_bytag(tag)
    }

    /// Reads the code point of one character.
    pub fn parse_utf8(&mut self) -> (r: Result<u32, DecodeError>)
        ensures
            final(self).offset() >= old(self).offset(),
            final(self).same_session(old(self)),
            match (decode_utf8(old(self).bytes(), old(self).offset()), r) {
                (Ok((v, n)), Ok(x)) => x == v && final(self).offset() == old(self).offset() + n,
                (Err(e), Err(f)) => e == f,
                _ => false,
            },
    {
        let u8_tag: u8 = self.cursor.next_u8()?;
        if u8_tag < 0x80 {
            Ok(u8_tag as u32)
        } else if (u8_tag & 0xe0) == 0xc0 {
            let chr2: u8 = self.cursor.next_u8()?;
            Ok((((u8_tag & 0x1f) as u32) << 6) | ((chr2 & 0x3f) as u32))
        } else {
            let chr2: u8 = self.cursor.next_u8()?;
            let chr3: u8 = self.cursor.next_u8()?;
            Ok(
                (((u8_tag & 0x0f) as u32) << 12) | (((chr2 & 0x3f) as u32) << 6) | ((chr3
                    & 0x3f) as u32),
            )
        }
    }

    /// Reads `len` characters.
    pub fn merge_char(&mut self, len: usize) -> (r: Result<String, DecodeError>)
        ensures
            final(self).offset() >= old(self).offset(),
            final(self).same_session(old(self)),
            match (decode_chars(old(self).bytes(), old(self).offset(), len as nat), r) {
                (Ok((v, n)), Ok(x)) => x@ == v && final(self).offset() == old(self).offset() + n,
                (Err(e), Err(f)) => e == f,
                _ => false,
            },
    {
        let ghost s = self.bytes();
        let ghost start = self.offset();
        let mut str_val: String = String::new();
        let mut i: usize = 0;
        while i < len
            invariant
                i <= len,
                self.same_session(old(self)),
                s == self.bytes(),
                start == old(self).offset(),
                start <= self.offset(),
                decode_chars(s, start, i as nat) == Ok::<(Seq<char>, nat), DecodeError>(
                    (str_val@, (self.offset() - start) as nat),
                ),
            decreases len - i,
        {
            proof {
                if decode_chars(s, start, (i + 1) as nat).is_err() {
                    lemma_chars_fail(s, start, (i + 1) as nat, len as nat);
                }
            }
            let cp: u32 = self.parse_utf8()?;
            match char_from_u32(cp) {
                Some(chr) => {
                    push_char(&mut str_val, chr);
                },
                None => {
                    return Err(DecodeError::InvalidCodepoint);
                },
            }
            i = i + 1;
        }
        Ok(str_val)
    }

    /// Reads a string whose tag, `tag`, has been read.
    pub fn read_string_bytag(&mut self, tag: u8) -> (r: Result<String, DecodeError>)
        ensures
            final(self).offset() >= old(self).offset(),
            final(self).same_session(old(self)),
            match (decode_string_bytag(old(self).bytes(), old(self).offset(), tag), r) {
                (Ok((v, n)), Ok(x)) => x@ == v && final(self).offset() == old(self).offset() + n,
                (Err(e), Err(f)) => e == f,
                _ => false,
            },
    {
        if tag <= 0x1f {
            self.merge_char(tag as usize)
        } else if 0x30 <= tag && tag <= 0x33 {
            let tag2: u8 = self.cursor.next_u8()?;
            let len: usize = ((tag - 0x30) as usize) * 256 + (tag2 as usize);
            self.merge_char(len)
        } else if tag == 0x52 || tag == 0x53 {
            let ghost s = self.bytes();
            let ghost start = self.offset();
            proof {
                use_type_invariant(&self.cursor);
                self.cursor.lemma_within();
            }
            let mut str_buff: String = String::new();
            let mut last_chunk: bool = tag == 0x53;
            let mut done: bool = false;
            while !done
                invariant
                    self.same_session(old(self)),
                    s == self.bytes(),
                    start == old(self).offset(),
                    tag == 0x52 || tag == 0x53,
                    start <= self.offset() <= s.len(),
                    !done ==> decode_string_chunks(s, start, tag == 0x53) == after(
                        str_buff@,
                        self.offset() - start,
                        decode_string_chunks(s, self.offset(), last_chunk),
                    ),
                    done ==> decode_string_chunks(s, start, tag == 0x53) == Ok::<
                        (Seq<char>, nat),
                        DecodeError,
                    >((str_buff@, (self.offset() - start) as nat)),
                decreases s.len() - self.offset() + (if done { 0int } else { 1int }),
            {
                let ghost before = str_buff@;
                let len: u16 = self.cursor.next_u16()?;
                let str_val: String = self.merge_char(len as usize)?;
                str_buff.append(str_val.as_str());
                if last_chunk {
                    done = true;
                    assert(before + str_val@ + Seq::<char>::empty() =~= before + str_val@);
                } else {
                    let next: u8 = self.cursor.next_u8()?;
                    last_chunk = next == 0x53;
                    assert forall|rest: Seq<char>|
                        before + (str_val@ + rest) == str_buff@ + rest by {
                        assert(before + (str_val@ + rest) =~= str_buff@ + rest);
                    }
                }
            }
            Ok(str_buff)
        } else {
            Err(DecodeError::UnrecognizedTag)
        }
    }

    /// Reads a string.
    pub fn read_string(&mut self) -> (r: Result<String, DecodeError>)
        ensures
            final(self).offset() >= old(self).offset(),
            r.is_ok() ==> final(self).offset() > old(self).offset(),
            final(self).same_session(old(self)),
            match (decode_string(old(self).bytes(), old(self).offset()), r) {
                (Ok((v, n)), Ok(x)) => x@ == v && final(self).offset() == old(self).offset() + n,
                (Err(e), Err(f)) => e == f,
                _ => false,
            },
    {
        let tag: u8 = self.cursor.next_u8()?;
        self.read_string_bytag(tag)
    }

    /// Puts the type table back to its first `mark` names.
    fn forget_types(&mut self, mark: usize)
        requires
            mark <= old(self).types().len(),
        ensures
            final(self).types() == old(self).types().subrange(0, mark as int),
            final(self).bytes() == old(self).bytes(),
            final(self).offset() == old(self).offset(),
    {
        self.type_ref.truncate(mark);
        assert(self.types() =~= old(self).types().subrange(0, mark as int));
    }

    /// Reads the type name of a list. A name written out as a string joins the
    /// type table. Anything else is read as an integer that names an entry of
    /// the table.
    pub fn read_type(&mut self) -> (r: Result<String, DecodeError>)
        ensures
            final(self).offset() >= old(self).offset(),
            r.is_ok() ==> final(self).offset() > old(self).offset(),
            r.is_err() ==> final(self).types() == old(self).types(),
            final(self).bytes() == old(self).bytes(),
            extends(final(self).types(), old(self).types()),
            match (decode_type(old(self).bytes(), old(self).offset(), old(self).types()), r) {
                (Ok((v, n, ty)), Ok(x)) => x@ == v && final(self).offset() == old(self).offset() + n
                    && final(self).types() == ty,
                (Err(e), Err(f)) => e == f,
                _ => false,
            },
    {
        let tag: u8 = match self.cursor.peek() {
            Some(tag) => tag,
            None => {
                return Err(DecodeError::EndOfInput);
            },
        };
        if tag <= 0x1f || (0x30 <= tag && tag <= 0x33) || tag == 0x52 || tag == 0x53 {
            let val_type: String = self.read_string()?;
            let idx: usize = self.put(val_type);
            Ok(self.get(idx))
        } else if self.type_ref.len() == 0 {
            Err(DecodeError::UnresolvedTypeReference)
        } else {
            let type_ref: i32 = self.read_int()?;
            if type_ref < 0 || (type_ref as usize) >= self.type_ref.len() {
                Err(DecodeError::UnresolvedTypeReference)
            } else {
                Ok(self.get(type_ref as usize))
            }
        }
    }

    /// Reads `count` strings and drops them.
    fn read_field_names(&mut self, count: usize) -> (r: Result<(), DecodeError>)
        ensures
            final(self).offset() >= old(self).offset(),
            final(self).same_session(old(self)),
            match (decode_field_names(old(self).bytes(), old(self).offset(), count as nat), r) {
                (Ok(n), Ok(_)) => final(self).offset() == old(self).offset() + n,
                (Err(e), Err(f)) => e == f,
                _ => false,
            },
    {
        let ghost s = self.bytes();
        let ghost start = self.offset();
        let mut i: usize = 0;
        while i < count
            invariant
                i <= count,
                self.same_session(old(self)),
                s == self.bytes(),
                start == old(self).offset(),
                start <= self.offset(),
                decode_field_names(s, start, i as nat) == Ok::<nat, DecodeError>(
                    (self.offset() - start) as nat,
                ),
            decreases count - i,
        {
            proof {
                if decode_field_names(s, start, (i + 1) as nat).is_err() {
                    lemma_field_names_fail(s, start, (i + 1) as nat, count as nat);
                }
            }
            let _ = self.read_string()?;
            i = i + 1;
        }
        Ok(())
    }

    /// Reads what stands behind the tag `C`: a class definition and one object,
    /// all of which is dropped.
    fn read_class_bytag(&mut self) -> (r: Result<(), DecodeError>)
        ensures
            final(self).offset() >= old(self).offset(),
            final(self).bytes() == old(self).bytes(),
            extends(final(self).types(), old(self).types()),
            match (
                decode_class_bytag(old(self).bytes(), old(self).offset(), old(self).types()),
                r,
            ) {
                (Ok((n, ty)), Ok(_)) => final(self).offset() == old(self).offset() + n
                    && final(self).types() == ty,
                (Err(e), Err(f)) => e == f,
                _ => false,
            },
        decreases remaining(old(self).bytes(), old(self).offset()), 3nat, 0nat,
    {
        let _ = self.read_string()?;
        let len: i32 = self.read_int()?;
        let count: usize = if len < 0 {
            0
        } else {
            len as usize
        };
        self.read_field_names(count)?;
        let _ = self.read_object()?;
        Ok(())
    }

    /// Reads `count` objects, one after the other.
    fn read_elements(&mut self, count: usize) -> (r: Result<Vec<Object>, DecodeError>)
        ensures
            final(self).offset() >= old(self).offset(),
            final(self).bytes() == old(self).bytes(),
            extends(final(self).types(), old(self).types()),
            match (
                decode_elements(
                    old(self).bytes(),
                    old(self).offset(),
                    old(self).types(),
                    count as nat,
                ),
                r,
            ) {
                (Ok((v, n, ty)), Ok(x)) => {
                    &&& objects_model(x@) == v
                    &&& final(self).offset() == old(self).offset() + n
                    &&& final(self).types() == ty
                },
                (Err(e), Err(f)) => e == f,
                _ => false,
            },
        decreases remaining(old(self).bytes(), old(self).offset()), 2nat, 0nat,
    {
        let ghost s = self.bytes();
        let ghost start = self.offset();
        let ghost types = self.types();
        let mut list: Vec<Object> = Vec::new();
        let mut i: usize = 0;
        assert(objects_model(list@) =~= Seq::<ObjectModel>::empty());
        while i < count
            invariant
                i <= count,
                s == self.bytes(),
                s == old(self).bytes(),
                start == old(self).offset(),
                types == old(self).types(),
                extends(self.types(), types),
                start <= self.offset(),
                decode_elements(s, start, types, i as nat) == Ok::<
                    (Seq<ObjectModel>, nat, Seq<Seq<char>>),
                    DecodeError,
                >((objects_model(list@), (self.offset() - start) as nat, self.types())),
            decreases count - i,
        {
            proof {
                if decode_elements(s, start, types, (i + 1) as nat).is_err() {
                    lemma_elements_fail(s, start, types, (i + 1) as nat, count as nat);
                }
            }
            let ghost before = list@;
            let obj: Object = self.read_object()?;
            list.push(obj);
            assert(objects_model(list@) =~= objects_model(before).push(obj@));
            i = i + 1;
        }
        Ok(list)
    }

    /// Reads a list whose tag, `tag`, has been read. After a failure the type
    /// table may hold names that the list brought.
    fn dispatch_list(&mut self, tag: u8) -> (r: Result<List, DecodeError>)
        ensures
            final(self).offset() >= old(self).offset(),
            final(self).bytes() == old(self).bytes(),
            extends(final(self).types(), old(self).types()),
            match (
                decode_list_bytag(old(self).bytes(), old(self).offset(), old(self).types(), tag),
                r,
            ) {
                (Ok((v, n, ty)), Ok(x)) => x@ == v && final(self).offset() == old(self).offset() + n
                    && final(self).types() == ty,
                (Err(e), Err(f)) => e == f,
                _ => false,
            },
        decreases remaining(old(self).bytes(), old(self).offset()), 3nat, 0nat,
    {
        if tag == 0x55 {
            let _ = self.read_type()?;
            let list: Vec<Object> = Vec::new();
            assert(objects_model(list@) =~= Seq::<ObjectModel>::empty());
            Ok(List::UTyped(list))
        } else if tag == 0x56 {
            let val_type: String = self.read_type()?;
            let len: i32 = self.read_int()?;
            let count: usize = if len < 0 {
                0
            } else {
                len as usize
            };
            let list: Vec<Object> = self.read_elements(count)?;
            Ok(List::Typed(val_type, list))
        } else if tag == 0x58 {
            let len: i32 = self.read_int()?;
            let count: usize = if len < 0 {
                0
            } else {
                len as usize
            };
            let list: Vec<Object> = self.read_elements(count)?;
            Ok(List::UTyped(list))
        } else {
            let list: Vec<Object> = Vec::new();
            assert(objects_model(list@) =~= Seq::<ObjectModel>::empty());
            Ok(List::UTyped(list))
        }
    }

    /// Reads a list whose tag, `tag`, has been read. A failure leaves the type
    /// table as it was.
    pub fn read_list_bytag(&mut self, tag: u8) -> (r: Result<List, DecodeError>)
        ensures
            final(self).offset() >= old(self).offset(),
            r.is_err() ==> final(self).types() == old(self).types(),
            final(self).bytes() == old(self).bytes(),
            extends(final(self).types(), old(self).types()),
            match (
                decode_list_bytag(old(self).bytes(), old(self).offset(), old(self).types(), tag),
                r,
            ) {
                (Ok((v, n, ty)), Ok(x)) => x@ == v && final(self).offset() == old(self).offset() + n
                    && final(self).types() == ty,
                (Err(e), Err(f)) => e == f,
                _ => false,
            },
        decreases remaining(old(self).bytes(), old(self).offset()), 4nat, 0nat,
    {
        let mark: usize = self.type_ref.len();
        match self.dispatch_list(tag) {
            Ok(list) => Ok(list),
            Err(e) => {
                self.forget_types(mark);
                Err(e)
            },
        }
    }

    /// Reads a list.
    pub fn read_list(&mut self) -> (r: Result<List, DecodeError>)
        ensures
            final(self).offset() >= old(self).offset(),
            r.is_ok() ==> final(self).offset() > old(self).offset(),
            r.is_err() ==> final(self).types() == old(self).types(),
            final(self).bytes() == old(self).bytes(),
            extends(final(self).types(), old(self).types()),
            match (decode_list(old(self).bytes(), old(self).offset(), old(self).types()), r) {
                (Ok((v, n, ty)), Ok(x)) => x@ == v && final(self).offset() == old(self).offset() + n
                    && final(self).types() == ty,
                (Err(e), Err(f)) => e == f,
                _ => false,
            },
    {
        let tag: u8 = self.cursor.next_u8()?;
        self.read_list_bytag(tag)
    }

    /// Reads the next value, whatever it is. After a failure the type table
    /// may hold names that the value brought.
    fn dispatch_object(&mut self) -> (r: Result<Object, DecodeError>)
        ensures
            final(self).offset() >= old(self).offset(),
            final(self).bytes() == old(self).bytes(),
            extends(final(self).types(), old(self).types()),
            match (decode_object(old(self).bytes(), old(self).offset(), old(self).types()), r) {
                (Ok((v, n, ty)), Ok(x)) => x@ == v && final(self).offset() == old(self).offset() + n
                    && final(self).types() == ty,
                (Err(e), Err(f)) => e == f,
                _ => false,
            },
        decreases remaining(old(self).bytes(), old(self).offset()), 0nat, 0nat,
    {
        let tag: u8 = self.cursor.next_u8()?;
        if tag == 0x4e {
            Ok(Object::NULL)
        } else if tag == 0x54 {
            Ok(Object::Boolean(true))
        } else if tag == 0x46 {
            Ok(Object::Boolean(false))
        } else if (0x80 <= tag && tag <= 0xd7) || tag == 0x49 {
            let val: i32 = self.read_int_bytag(tag)?;
            Ok(Object::Integer(val))
        } else if 0xd8 <= tag || (0x38 <= tag && tag <= 0x3f) || tag == 0x59 || tag == 0x4c {
            let val: i64 = self.read_long_bytag(tag)?;
            Ok(Object::Long(val))
        } else if (0x5b <= tag && tag <= 0x5f) || tag == 0x44 {
            let val: DoubleValue = self.read_double_bytag(tag)?;
            Ok(Object::Double(val))
        } else if tag == 0x4a || tag == 0x4b {
            let val: u64 = self.read_utcdate_bytag(tag)?;
            Ok(Object::Date(val))
        } else if tag <= 0x1f || (0x30 <= tag && tag <= 0x33) || tag == 0x52 || tag == 0x53 {
            let val: String = self.read_string_bytag(tag)?;
            Ok(Object::Str(val))
        } else if (0x20 <= tag && tag <= 0x2f) || (0x34 <= tag && tag <= 0x37) || tag == 0x41
            || tag == 0x42 {
            let val: Vec<u8> = self.read_binary_bytag(tag)?;
            Ok(Object::Bin(val))
        } else if 0x55 <= tag && tag <= 0x58 {
            let val: List = self.read_list_bytag(tag)?;
            Ok(Object::List(val))
        } else if 0x78 <= tag && tag <= 0x7f {
            let rs: Vec<Object> = self.read_elements((tag - 0x78) as usize)?;
            Ok(Object::List(List::UTyped(rs)))
        } else if tag == 0x43 {
            self.read_class_bytag()?;
            Ok(Object::NULL)
        } else {
            Ok(Object::NULL)
        }
    }

    /// Reads the next value, whatever it is: the tag decides. A tag that
    /// begins no known form gives a null. A failure leaves the type table as
    /// it was.
    pub fn read_object(&mut self) -> (r: Result<Object, DecodeError>)
        ensures
            final(self).offset() >= old(self).offset(),
            r.is_ok() ==> final(self).offset() > old(self).offset(),
            r.is_err() ==> final(self).types() == old(self).types(),
            final(self).bytes() == old(self).bytes(),
            extends(final(self).types(), old(self).types()),
            match (decode_object(old(self).bytes(), old(self).offset(), old(self).types()), r) {
                (Ok((v, n, ty)), Ok(x)) => x@ == v && final(self).offset() == old(self).offset() + n
                    && final(self).types() == ty,
                (Err(e), Err(f)) => e == f,
                _ => false,
            },
        decreases remaining(old(self).bytes(), old(self).offset()), 1nat, 0nat,
    {
        let mark: usize = self.type_ref.len();
        match self.dispatch_object() {
            Ok(obj) => Ok(obj),
            Err(e) => {
                self.forget_types(mark);
                Err(e)
            },
        }
    }
}

} // verus!
