//! The cursor: a position in an immutable byte buffer, and the fixed-width
//! reads that every decoder is built from.

use vstd::prelude::*;
use vstd::slice::slice_subrange;
use crate::error::DecodeError;
use crate::grammar::{
    avail, be_i32, be_i64, be_u16, be_u32, be_u64,
};

verus! {

/// A byte buffer and the position of the next byte to read. The position
/// never passes the end of the buffer and never moves back.
pub struct Cursor<'a> {
    buff: &'a [u8],
    pos: usize,
}

impl<'a> Cursor<'a> {
    /// The position lies within the buffer. Every cursor meets this.
    #[verifier::type_invariant]
    pub closed spec fn within(self) -> bool {
        self.pos <= self.buff@.len()
    }

    /// The whole buffer.
    pub closed spec fn bytes(&self) -> Seq<u8> {
        self.buff@
    }

    /// The position of the next byte to read.
    pub closed spec fn offset(&self) -> int {
        self.pos as int
    }

    /// The read `r` of `width` bytes gave `value` and moved `self` to `after`,
    /// or too few bytes were left and nothing moved.
    pub open spec fn fixed_read<T>(
        &self,
        after: &Self,
        width: int,
        value: T,
        r: Result<T, DecodeError>,
    ) -> bool {
        &&& after.bytes() == self.bytes()
        &&& if avail(self.bytes(), self.offset(), width) {
            r == Ok::<T, DecodeError>(value) && after.offset() == self.offset() + width
        } else {
            r == Err::<T, DecodeError>(DecodeError::EndOfInput) && after.offset() == self.offset()
        }
    }

    /// The position never passes the end of the buffer.
    pub proof fn lemma_within(&self)
        requires
            self.within(),
        ensures
            0 <= self.offset() <= self.bytes().len(),
    {
    }

    /// A cursor at the start of `buff`.
    pub fn new(buff: &'a [u8]) -> (r: Self)
        ensures
            r.bytes() == buff@,
            r.offset() == 0,
    {
        Cursor { buff, pos: 0 }
    }

    /// The number of bytes read so far.
    pub fn position(&self) -> (r: usize)
        ensures
            r == self.offset(),
            r <= self.bytes().len(),
    {
        proof {
            use_type_invariant(self);
        }
        self.pos
    }

    /// The bytes not read yet.
    pub fn rest(&self) -> (r: &'a [u8])
        ensures
            self.offset() <= self.bytes().len(),
            r@ == self.bytes().subrange(self.offset(), self.bytes().len() as int),
    {
        proof {
            use_type_invariant(self);
        }
        slice_subrange(self.buff, self.pos, self.buff.len())
    }

    /// The next byte, if there is one, without reading it.
    pub fn peek(&self) -> (r: Option<u8>)
        ensures
            r.is_some() <==> avail(self.bytes(), self.offset(), 1),
            r matches Some(b) ==> b == self.bytes()[self.offset()],
    {
        if self.pos < self.buff.len() {
            Some(self.buff[self.pos])
        } else {
            None
        }
    }

    /// Reads `count` bytes and returns them.
    pub fn take(&mut self, count: usize) -> (r: Result<&'a [u8], DecodeError>)
        ensures
            final(self).bytes() == old(self).bytes(),
            r.is_ok() <==> avail(old(self).bytes(), old(self).offset(), count as int),
            r matches Ok(taken) ==> taken@ == old(self).bytes().subrange(
                old(self).offset(),
                old(self).offset() + count,
            ) && final(self).offset() == old(self).offset() + count,
            r matches Err(e) ==> e == DecodeError::EndOfInput,
            r.is_err() ==> final(self).offset() == old(self).offset(),
    {
        proof {
            use_type_invariant(&*self);
        }
        if count <= self.buff.len() - self.pos {
            let taken = slice_subrange(self.buff, self.pos, self.pos + count);
            self.pos = self.pos + count;
            Ok(taken)
        } else {
            Err(DecodeError::EndOfInput)
        }
    }

    /// Reads one byte.
    pub fn next_u8(&mut self) -> (r: Result<u8, DecodeError>)
        ensures
            old(self).fixed_read(final(self), 1, old(self).bytes()[old(self).offset()], r),
    {
        if self.pos < self.buff.len() {
            let b: u8 = self.buff[self.pos];
            self.pos = self.pos + 1;
            Ok(b)
        } else {
            Err(DecodeError::EndOfInput)
        }
    }

    /// Reads two bytes as a big-endian unsigned number.
    pub fn next_u16(&mut self) -> (r: Result<u16, DecodeError>)
        ensures
            old(self).fixed_read(
                final(self),
                2,
                be_u16(old(self).bytes(), old(self).offset()) as u16,
                r,
            ),
    {
        proof {
            use_type_invariant(&*self);
        }
        if 2 <= self.buff.len() - self.pos {
            let h: u16 = self.buff[self.pos] as u16;
            let l: u16 = self.buff[self.pos + 1] as u16;
            self.pos = self.pos + 2;
            Ok(h * 0x100 + l)
        } else {
            Err(DecodeError::EndOfInput)
        }
    }

    /// Reads four bytes as a big-endian unsigned number.
    pub fn next_u32(&mut self) -> (r: Result<u32, DecodeError>)
        ensures
            old(self).fixed_read(
                final(self),
                4,
                be_u32(old(self).bytes(), old(self).offset()) as u32,
                r,
            ),
    {
        proof {
            use_type_invariant(&*self);
        }
        if 4 <= self.buff.len() - self.pos {
            let h: u32 = (self.buff[self.pos] as u32) * 0x100 + (self.buff[self.pos + 1] as u32);
            let l: u32 = (self.buff[self.pos + 2] as u32) * 0x100 + (self.buff[self.pos
                + 3] as u32);
            self.pos = self.pos + 4;
            Ok(h * 0x1_0000 + l)
        } else {
            Err(DecodeError::EndOfInput)
        }
    }

    /// Reads four bytes as a big-endian number in two's complement.
    pub fn next_i32(&mut self) -> (r: Result<i32, DecodeError>)
        ensures
            old(self).fixed_read(
                final(self),
                4,
                be_i32(old(self).bytes(), old(self).offset()) as i32,
                r,
            ),
    {
        let v: u32 = self.next_u32()?;
        if v >= 0x8000_0000 {
            Ok(((v as i64) - 0x1_0000_0000) as i32)
        } else {
            Ok(v as i32)
        }
    }

    /// Reads eight bytes as a big-endian unsigned number.
    pub fn next_u64(&mut self) -> (r: Result<u64, DecodeError>)
        ensures
            old(self).fixed_read(
                final(self),
                8,
                be_u64(old(self).bytes(), old(self).offset()) as u64,
                r,
            ),
    {
        proof {
            use_type_invariant(&*self);
        }
        if 8 <= self.buff.len() - self.pos {
            let h: u32 = self.next_u32()?;
            let l: u32 = self.next_u32()?;
            Ok((h as u64) * 0x1_0000_0000 + (l as u64))
        } else {
            Err(DecodeError::EndOfInput)
        }
    }

    /// Reads eight bytes as a big-endian number in two's complement.
    pub fn next_i64(&mut self) -> (r: Result<i64, DecodeError>)
        ensures
            old(self).fixed_read(
                final(self),
                8,
                be_i64(old(self).bytes(), old(self).offset()) as i64,
                r,
            ),
    {
        let v: u64 = self.next_u64()?;
        if v >= 0x8000_0000_0000_0000 {
            Ok(((v - 0x8000_0000_0000_0000) as i64) + i64::MIN)
        } else {
            Ok(v as i64)
        }
    }
}

} // verus!
