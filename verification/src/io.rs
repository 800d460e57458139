use vstd::prelude::*;
use crate::bytes::{u16_le, u32_le};
use crate::error::{eof, failure, invalid_data, unexpected_eof, Failure, Result};

verus! {

/// A cursor over a byte slice that reads little-endian values.
#[derive(Debug)]
pub struct ByteReader<'a> {
    data: &'a [u8],
    pos: usize,
}

impl<'a> View for ByteReader<'a> {
    type V = (Seq<u8>, int);

    /// The bytes and the current position.
    closed spec fn view(&self) -> (Seq<u8>, int) {
        (self.data@, self.pos as int)
    }
}

impl<'a> ByteReader<'a> {
    #[verifier::type_invariant]
    spec fn inv(self) -> bool {
        self.pos <= self.data@.len()
    }

    /// A reader at the start of `data`.
    pub fn new(data: &'a [u8]) -> (r: Self)
        ensures
            r@ == (data@, 0int),
    {
        ByteReader { data, pos: 0 }
    }

    /// The current position.
    pub fn position(&self) -> (p: usize)
        ensures
            p == self@.1,
            p <= self@.0.len(),
    {
        proof {
            use_type_invariant(self);
        }
        self.pos
    }

    /// The number of bytes after the position.
    pub fn remaining(&self) -> (n: usize)
        ensures
            n == self@.0.len() - self@.1,
    {
        proof {
            use_type_invariant(self);
        }
        self.data.len() - self.pos
    }

    /// Moves to `pos`, which may be the end but not past it.
    pub fn seek(&mut self, pos: usize) -> (r: Result<()>)
        ensures
            final(self)@.0 == old(self)@.0,
            match r {
                Ok(_) => pos <= old(self)@.0.len() && final(self)@.1 == pos,
                Err(e) => pos > old(self)@.0.len() && final(self)@ == old(self)@
                    && failure(e) == eof(pos as int, old(self)@.0.len() as int),
            },
    {
        if pos > self.data.len() {
            return Err(unexpected_eof(pos, self.data.len()));
        }
        self.pos = pos;
        Ok(())
    }

    /// Moves `len` bytes forward.
    pub fn skip(&mut self, len: usize) -> (r: Result<()>)
        ensures
            final(self)@.0 == old(self)@.0,
            match r {
                Ok(_) => old(self)@.1 + len <= old(self)@.0.len() && final(self)@.1 == old(self)@.1 + len,
                Err(e) => final(self)@ == old(self)@ && if old(self)@.1 + len > usize::MAX {
                    failure(e) == Failure::InvalidData
                } else {
                    old(self)@.1 + len > old(self)@.0.len() && failure(e) == eof(old(self)@.1 + len, old(self)@.0.len() as int)
                },
            },
    {
        if self.pos > usize::MAX - len {
            return Err(invalid_data("reader position overflow"));
        }
        let next = self.pos + len;
        self.seek(next)
    }

    /// The next `len` bytes, moving past them.
    pub fn read_bytes(&mut self, len: usize) -> (r: Result<&'a [u8]>)
        ensures
            final(self)@.0 == old(self)@.0,
            match r {
                Ok(s) => old(self)@.1 + len <= old(self)@.0.len()
                    && s@ == old(self)@.0.subrange(old(self)@.1, old(self)@.1 + len)
                    && final(self)@.1 == old(self)@.1 + len,
                Err(e) => old(self)@.1 + len > old(self)@.0.len() && final(self)@ == old(self)@
                    && failure(e) == eof(len as int, old(self)@.0.len() - old(self)@.1),
            },
    {
        proof {
            use_type_invariant(&*self);
        }
        let rem = self.data.len() - self.pos;
        if rem < len {
            return Err(unexpected_eof(len, rem));
        }
        let start = self.pos;
        self.pos = self.pos + len;
        Ok(&self.data[start..start + len])
    }

    /// The next little-endian 16-bit value, moving past it.
    pub fn read_u16_le(&mut self) -> (r: Result<u16>)
        ensures
            final(self)@.0 == old(self)@.0,
            match r {
                Ok(v) => old(self)@.1 + 2 <= old(self)@.0.len()
                    && v == u16_le(old(self)@.0, old(self)@.1)
                    && final(self)@.1 == old(self)@.1 + 2,
                Err(e) => old(self)@.1 + 2 > old(self)@.0.len() && final(self)@ == old(self)@
                    && failure(e) == eof(2, old(self)@.0.len() - old(self)@.1),
            },
    {
        let b = match self.read_bytes(2) {
            Ok(b) => b,
            Err(e) => return Err(e),
        };
        Ok(b[0] as u16 + 256 * b[1] as u16)
    }

    /// The next little-endian 32-bit value, moving past it.
    pub fn read_u32_le(&mut self) -> (r: Result<u32>)
        ensures
            final(self)@.0 == old(self)@.0,
            match r {
                Ok(v) => old(self)@.1 + 4 <= old(self)@.0.len()
                    && v == u32_le(old(self)@.0, old(self)@.1)
                    && final(self)@.1 == old(self)@.1 + 4,
                Err(e) => old(self)@.1 + 4 > old(self)@.0.len() && final(self)@ == old(self)@
                    && failure(e) == eof(4, old(self)@.0.len() - old(self)@.1),
            },
    {
        let b = match self.read_bytes(4) {
            Ok(b) => b,
            Err(e) => return Err(e),
        };
        Ok(b[0] as u32 + 256 * b[1] as u32 + 65536 * b[2] as u32 + 16777216 * b[3] as u32)
    }

    /// The next four bytes as a tag, moving past them.
    pub fn read_fourcc(&mut self) -> (r: Result<[u8; 4]>)
        ensures
            final(self)@.0 == old(self)@.0,
            match r {
                Ok(v) => old(self)@.1 + 4 <= old(self)@.0.len()
                    && v@ == old(self)@.0.subrange(old(self)@.1, old(self)@.1 + 4)
                    && final(self)@.1 == old(self)@.1 + 4,
                Err(e) => old(self)@.1 + 4 > old(self)@.0.len() && final(self)@ == old(self)@
                    && failure(e) == eof(4, old(self)@.0.len() - old(self)@.1),
            },
    {
        let b = match self.read_bytes(4) {
            Ok(b) => b,
            Err(e) => return Err(e),
        };
        let v = [b[0], b[1], b[2], b[3]];
        assert(v@ =~= b@);
        Ok(v)
    }
}

} // verus!
