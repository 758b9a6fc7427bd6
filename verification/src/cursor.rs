//! A sequential big-endian reader over an immutable byte slice.
//!
//! Every other component builds on this cursor. Each read either returns the
//! value and advances the position, or fails with
//! [`ParseError::TruncatedInput`] when fewer bytes remain than required; no
//! read ever goes out of bounds.

use crate::error::ParseError;
use vstd::prelude::*;
use vstd::slice::slice_index_get;
use vstd::slice::slice_subrange;

verus! {

/// The big-endian 16-bit value stored at `pos`.
pub open spec fn be_u16(bytes: Seq<u8>, pos: int) -> int {
    bytes[pos] * 0x100 + bytes[pos + 1]
}

/// The big-endian 32-bit value stored at `pos`.
pub open spec fn be_u32(bytes: Seq<u8>, pos: int) -> int {
    bytes[pos] * 0x100_0000 + bytes[pos + 1] * 0x1_0000 + bytes[pos + 2] * 0x100 + bytes[pos + 3]
}

/// The big-endian 64-bit value stored at `pos`.
pub open spec fn be_u64(bytes: Seq<u8>, pos: int) -> int {
    be_u32(bytes, pos) * 0x1_0000_0000 + be_u32(bytes, pos + 4)
}

/// Reinterprets an unsigned 32-bit value as two's-complement signed.
pub open spec fn signed32(v: int) -> int {
    if v < 0x8000_0000 {
        v
    } else {
        v - 0x1_0000_0000
    }
}

/// Reinterprets an unsigned 64-bit value as two's-complement signed.
pub open spec fn signed64(v: int) -> int {
    if v < 0x8000_0000_0000_0000 {
        v
    } else {
        v - 0x1_0000_0000_0000_0000
    }
}

/// Reinterprets an unsigned 8-bit value as two's-complement signed.
pub open spec fn signed8(v: int) -> int {
    if v < 0x80 {
        v
    } else {
        v - 0x100
    }
}

/// Sequential reader over a byte slice: the bytes it was built on, and the
/// position of the next unread byte.
#[derive(Debug)]
pub struct ByteCursor<'a> {
    raw: &'a [u8],
    pos: usize,
}

impl<'a> ByteCursor<'a> {
    /// The whole underlying byte sequence, including what is already consumed.
    pub closed spec fn bytes(self) -> Seq<u8> {
        self.raw@
    }

    /// The position of the next unread byte.
    pub closed spec fn spec_position(&self) -> usize {
        self.pos
    }

    /// The cursor never moves past the end of its bytes.
    pub closed spec fn wf(self) -> bool {
        self.pos <= self.raw@.len()
    }

    /// A well-formed cursor's position never exceeds its byte count.
    pub proof fn lemma_wf_position(self)
        requires
            self.wf(),
        ensures
            self.spec_position() <= self.bytes().len(),
    {
    }

    /// A cursor standing at the start of `raw`.
    pub fn new(raw: &'a [u8]) -> (r: Self)
        ensures
            r.wf(),
            r.bytes() == raw@,
            r.spec_position() == 0,
    {
        ByteCursor { raw, pos: 0 }
    }

    /// The position of the next unread byte.
    #[verifier::when_used_as_spec(spec_position)]
    pub fn position(&self) -> (r: usize)
        ensures
            r == self.spec_position(),
    {
        self.pos
    }

    /// How many bytes are left to read.
    pub fn remaining(&self) -> (r: usize)
        requires
            self.wf(),
        ensures
            r == self.bytes().len() - self.spec_position(),
    {
        self.raw.len() - self.pos
    }

    /// Reads one byte and advances.
    pub fn next_u8(&mut self) -> (r: Result<u8, ParseError>)
        requires
            old(self).wf(),
        ensures
            final(self).wf(),
            final(self).bytes() == old(self).bytes(),
            old(self).position() + 1 <= old(self).bytes().len() ==> {
                &&& r == Ok::<u8, ParseError>(old(self).bytes()[old(self).position() as int])
                &&& final(self).position() == old(self).position() + 1
            },
            old(self).position() + 1 > old(self).bytes().len() ==> {
                &&& r == Err::<u8, ParseError>(ParseError::TruncatedInput)
                &&& final(self).position() == old(self).position()
            },
    {
        if self.pos < self.raw.len() {
            let b = *slice_index_get(self.raw, self.pos);
            self.pos = self.pos + 1;
            Ok(b)
        } else {
            Err(ParseError::TruncatedInput)
        }
    }

    /// Reads a big-endian `u16` and advances.
    pub fn next_u16(&mut self) -> (r: Result<u16, ParseError>)
        requires
            old(self).wf(),
        ensures
            final(self).wf(),
            final(self).bytes() == old(self).bytes(),
            old(self).position() + 2 <= old(self).bytes().len() ==> {
                &&& r matches Ok(v) && v == be_u16(old(self).bytes(), old(self).position() as int)
                &&& final(self).position() == old(self).position() + 2
            },
            old(self).position() + 2 > old(self).bytes().len() ==> {
                &&& r == Err::<u16, ParseError>(ParseError::TruncatedInput)
                &&& final(self).position() == old(self).position()
            },
    {
        if self.raw.len() - self.pos >= 2 {
            let b0 = *slice_index_get(self.raw, self.pos);
            let b1 = *slice_index_get(self.raw, self.pos + 1);
            self.pos = self.pos + 2;
            Ok((b0 as u16) * 0x100 + (b1 as u16))
        } else {
            Err(ParseError::TruncatedInput)
        }
    }

    /// Reads a big-endian `u32` and advances.
    pub fn next_u32(&mut self) -> (r: Result<u32, ParseError>)
        requires
            old(self).wf(),
        ensures
            final(self).wf(),
            final(self).bytes() == old(self).bytes(),
            old(self).position() + 4 <= old(self).bytes().len() ==> {
                &&& r matches Ok(v) && v == be_u32(old(self).bytes(), old(self).position() as int)
                &&& final(self).position() == old(self).position() + 4
            },
            old(self).position() + 4 > old(self).bytes().len() ==> {
                &&& r == Err::<u32, ParseError>(ParseError::TruncatedInput)
                &&& final(self).position() == old(self).position()
            },
    {
        if self.raw.len() - self.pos >= 4 {
            let b0 = *slice_index_get(self.raw, self.pos);
            let b1 = *slice_index_get(self.raw, self.pos + 1);
            let b2 = *slice_index_get(self.raw, self.pos + 2);
            let b3 = *slice_index_get(self.raw, self.pos + 3);
            self.pos = self.pos + 4;
            Ok((b0 as u32) * 0x100_0000 + (b1 as u32) * 0x1_0000 + (b2 as u32) * 0x100
                + (b3 as u32))
        } else {
            Err(ParseError::TruncatedInput)
        }
    }

    /// Consumes exactly `n` bytes and hands them out as a slice.
    pub fn take(&mut self, n: usize) -> (r: Result<&'a [u8], ParseError>)
        requires
            old(self).wf(),
        ensures
            final(self).wf(),
            final(self).bytes() == old(self).bytes(),
            old(self).position() + n <= old(self).bytes().len() ==> {
                &&& r matches Ok(s) && s@ == old(self).bytes().subrange(
                    old(self).position() as int,
                    old(self).position() + n,
                )
                &&& final(self).position() == old(self).position() + n
            },
            old(self).position() + n > old(self).bytes().len() ==> {
                &&& r == Err::<&'a [u8], ParseError>(ParseError::TruncatedInput)
                &&& final(self).position() == old(self).position()
            },
    {
        if n <= self.raw.len() - self.pos {
            let s = slice_subrange(self.raw, self.pos, self.pos + n);
            self.pos = self.pos + n;
            Ok(s)
        } else {
            Err(ParseError::TruncatedInput)
        }
    }
}

} // verus!
