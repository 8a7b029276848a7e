//! A read position over a borrowed byte buffer, the one way every decoder of
//! the library walks its input.
use vstd::prelude::*;

use crate::bytes::{spec_u16_le, spec_u32_le, u16_from_le, u32_from_le};
use crate::error::FrameError;

verus! {

/// Bytes `data[pos..]` are still unread. A failed read leaves the position
/// where it was.
pub struct Cursor<'a> {
    data: &'a [u8],
    pos: usize,
}

impl<'a> Cursor<'a> {
    #[verifier::type_invariant]
    spec fn inv(self) -> bool {
        self.pos <= self.data@.len()
    }

    /// Everything the cursor walks over, read or not.
    pub closed spec fn bytes(self) -> Seq<u8> {
        self.data@
    }

    /// How many bytes have been read.
    pub closed spec fn pos(self) -> int {
        self.pos as int
    }

    /// The bytes not read yet.
    pub open spec fn rest(self) -> Seq<u8> {
        self.bytes().subrange(self.pos(), self.bytes().len() as int)
    }

    pub fn new(data: &'a [u8]) -> (r: Self)
        ensures
            r.bytes() == data@,
            r.pos() == 0,
    {
        Cursor { data, pos: 0 }
    }

    pub fn position(&self) -> (r: usize)
        ensures
            r == self.pos(),
            r <= self.bytes().len(),
    {
        proof {
            use_type_invariant(self);
        }
        self.pos
    }

    pub fn get_ref(&self) -> (r: &'a [u8])
        ensures
            r@ == self.bytes(),
    {
        self.data
    }

    /// How many bytes are still unread.
    pub fn remaining(&self) -> (r: usize)
        ensures
            r == self.bytes().len() - self.pos(),
    {
        proof {
            use_type_invariant(self);
        }
        self.data.len() - self.pos
    }

    pub fn is_empty(&self) -> (r: bool)
        ensures
            r == (self.pos() == self.bytes().len()),
    {
        proof {
            use_type_invariant(self);
        }
        self.pos == self.data.len()
    }

    pub fn read_u8(&mut self) -> (r: Result<u8, FrameError>)
        ensures
            final(self).bytes() == old(self).bytes(),
            0 <= old(self).pos() <= old(self).bytes().len(),
            0 <= final(self).pos() <= final(self).bytes().len(),
            old(self).pos() < old(self).bytes().len() ==> r == Ok::<u8, FrameError>(
                old(self).bytes()[old(self).pos()],
            ) && final(self).pos() == old(self).pos() + 1,
            old(self).pos() >= old(self).bytes().len() ==> r == Err::<u8, FrameError>(
                FrameError::UnexpectedEof,
            ) && final(self).pos() == old(self).pos(),
    {
        proof {
            use_type_invariant(&*self);
        }
        if self.pos < self.data.len() {
            let b = self.data[self.pos];
            self.pos = self.pos + 1;
            Ok(b)
        } else {
            Err(FrameError::UnexpectedEof)
        }
    }

    /// A little-endian `u16`.
    pub fn read_u16(&mut self) -> (r: Result<u16, FrameError>)
        ensures
            final(self).bytes() == old(self).bytes(),
            0 <= old(self).pos() <= old(self).bytes().len(),
            0 <= final(self).pos() <= final(self).bytes().len(),
            old(self).pos() + 2 <= old(self).bytes().len() ==> r == Ok::<u16, FrameError>(
                spec_u16_le(
                    old(self).bytes()[old(self).pos()],
                    old(self).bytes()[old(self).pos() + 1],
                ),
            ) && final(self).pos() == old(self).pos() + 2,
            old(self).pos() + 2 > old(self).bytes().len() ==> r == Err::<u16, FrameError>(
                FrameError::UnexpectedEof,
            ) && final(self).pos() == old(self).pos(),
    {
        proof {
            use_type_invariant(&*self);
        }
        if self.data.len() - self.pos >= 2 {
            let r = u16_from_le(self.data[self.pos], self.data[self.pos + 1]);
            self.pos = self.pos + 2;
            Ok(r)
        } else {
            Err(FrameError::UnexpectedEof)
        }
    }

    /// A little-endian `u32`.
    pub fn read_u32(&mut self) -> (r: Result<u32, FrameError>)
        ensures
            final(self).bytes() == old(self).bytes(),
            0 <= old(self).pos() <= old(self).bytes().len(),
            0 <= final(self).pos() <= final(self).bytes().len(),
            old(self).pos() + 4 <= old(self).bytes().len() ==> r == Ok::<u32, FrameError>(
                spec_u32_le(old(self).bytes().subrange(old(self).pos(), old(self).pos() + 4)),
            ) && final(self).pos() == old(self).pos() + 4,
            old(self).pos() + 4 > old(self).bytes().len() ==> r == Err::<u32, FrameError>(
                FrameError::UnexpectedEof,
            ) && final(self).pos() == old(self).pos(),
    {
        proof {
            use_type_invariant(&*self);
        }
        if self.data.len() - self.pos >= 4 {
            let p = self.pos;
            let r = u32_from_le(self.data[p], self.data[p + 1], self.data[p + 2], self.data[p + 3]);
            proof {
                let s = self.data@.subrange(p as int, p + 4);
                assert(s[0] == self.data@[p as int] && s[1] == self.data@[p + 1] && s[2]
                    == self.data@[p + 2] && s[3] == self.data@[p + 3]);
            }
            self.pos = self.pos + 4;
            Ok(r)
        } else {
            Err(FrameError::UnexpectedEof)
        }
    }

    /// The next `length` bytes, borrowed from the buffer.
    pub fn read_slice(&mut self, length: usize) -> (r: Result<&'a [u8], FrameError>)
        ensures
            final(self).bytes() == old(self).bytes(),
            0 <= old(self).pos() <= old(self).bytes().len(),
            0 <= final(self).pos() <= final(self).bytes().len(),
            old(self).pos() + length <= old(self).bytes().len() ==> (r matches Ok(v) && v@
                == old(self).bytes().subrange(old(self).pos(), old(self).pos() + length)
                && final(self).pos() == old(self).pos() + length),
            old(self).pos() + length > old(self).bytes().len() ==> r == Err::<&'a [u8], FrameError>(
                FrameError::UnexpectedEof,
            ) && final(self).pos() == old(self).pos(),
    {
        proof {
            use_type_invariant(&*self);
        }
        if length <= self.data.len() - self.pos {
            let start = self.pos;
            let end = start + length;
            let value = &self.data[start..end];
            self.pos = end;
            Ok(value)
        } else {
            Err(FrameError::UnexpectedEof)
        }
    }

    /// Everything not read yet; the cursor ends up at the end of the buffer.
    pub fn read_remainder(&mut self) -> (r: &'a [u8])
        ensures
            final(self).bytes() == old(self).bytes(),
            0 <= old(self).pos() <= old(self).bytes().len(),
            0 <= final(self).pos() <= final(self).bytes().len(),
            r@ == old(self).rest(),
            final(self).pos() == old(self).bytes().len(),
    {
        proof {
            use_type_invariant(&*self);
        }
        let start = self.pos;
        let end = self.data.len();
        let value = &self.data[start..end];
        self.pos = end;
        value
    }
}

} // verus!
