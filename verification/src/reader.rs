//! A cursor over the byte buffer being decoded.
use crate::error::DecodeError;
use vstd::prelude::*;

verus! {

/// A read position inside a borrowed byte buffer.  Decoders consume bytes
/// from the front of [`Reader::remaining`].
pub struct Reader<'a> {
    buf: &'a [u8],
    pos: usize,
}

impl<'a> Reader<'a> {
    /// The bytes not yet consumed.
    pub closed spec fn remaining(&self) -> Seq<u8> {
        if self.pos as int <= self.buf@.len() {
            self.buf@.skip(self.pos as int)
        } else {
            Seq::empty()
        }
    }

    pub fn new(buf: &'a [u8]) -> (r: Reader<'a>)
        ensures
            r.remaining() == buf@,
    {
        let r = Reader { buf, pos: 0 };
        proof {
            assert(r.remaining() =~= buf@);
        }
        r
    }

    /// How many bytes are not yet consumed.
    pub fn remaining_len(&self) -> (r: usize)
        ensures
            r == self.remaining().len(),
    {
        if self.pos <= self.buf.len() {
            self.buf.len() - self.pos
        } else {
            0
        }
    }

    pub fn is_empty(&self) -> (r: bool)
        ensures
            r == (self.remaining().len() == 0),
    {
        self.pos >= self.buf.len()
    }

    /// Read one byte; fails exactly when the buffer is exhausted.
    pub fn read_u8(&mut self) -> (r: Result<u8, DecodeError>)
        ensures
            match r {
                Ok(b) => {
                    &&& old(self).remaining().len() >= 1
                    &&& b == old(self).remaining()[0]
                    &&& final(self).remaining() == old(self).remaining().skip(1)
                },
                Err(e) => {
                    &&& old(self).remaining().len() == 0
                    &&& e@ == crate::error::DecodeErrorV::IoError
                    &&& final(self).remaining() == old(self).remaining()
                },
            },
    {
        if self.pos < self.buf.len() {
            let b = self.buf[self.pos];
            self.pos = self.pos + 1;
            proof {
                assert(final(self).remaining() =~= old(self).remaining().skip(1));
            }
            Ok(b)
        } else {
            Err(DecodeError::IoError)
        }
    }

    /// Read exactly `n` bytes; fails exactly when fewer remain.
    pub fn read_bytes(&mut self, n: usize) -> (r: Result<Vec<u8>, DecodeError>)
        ensures
            match r {
                Ok(v) => {
                    &&& n as int <= old(self).remaining().len()
                    &&& v@ == old(self).remaining().take(n as int)
                    &&& final(self).remaining() == old(self).remaining().skip(n as int)
                },
                Err(e) => {
                    &&& old(self).remaining().len() < n as int
                    &&& e@ == crate::error::DecodeErrorV::IoError
                    &&& final(self).remaining() == old(self).remaining()
                },
            },
    {
        if self.pos < self.buf.len() && n <= self.buf.len() - self.pos {
            let v = vstd::slice::slice_to_vec(&self.buf[self.pos..self.pos + n]);
            self.pos = self.pos + n;
            proof {
                assert(v@ =~= old(self).remaining().take(n as int));
                assert(final(self).remaining() =~= old(self).remaining().skip(n as int));
            }
            Ok(v)
        } else if n == 0 {
            let v: Vec<u8> = Vec::new();
            proof {
                assert(v@ =~= old(self).remaining().take(0));
                assert(final(self).remaining() =~= old(self).remaining().skip(0));
            }
            Ok(v)
        } else {
            Err(DecodeError::IoError)
        }
    }
}

} // verus!
