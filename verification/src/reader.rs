//! The byte source all decoders consume from: a cursor over an owned byte
//! buffer offering sequential exact-length reads and an end-of-input query.

use vstd::prelude::*;

use crate::bytes::spec_le_u16;
use crate::bytes::spec_le_u32;
use crate::bytes::spec_le_u64;
use crate::error::Error;

verus! {

/// A sequential reader over a byte buffer. Each read either consumes the
/// exact number of bytes asked for or fails with `Error::Io` and the format
/// decoders report that failure unchanged.
pub struct ByteReader {
    data: Vec<u8>,
    pos: usize,
}

impl ByteReader {
    /// The whole underlying buffer; never changed by reads.
    pub closed spec fn bytes(&self) -> Seq<u8> {
        self.data@
    }

    /// How many bytes have been consumed so far.
    pub closed spec fn position(&self) -> nat {
        self.pos as nat
    }

    /// The bytes not yet consumed.
    pub open spec fn remaining(&self) -> Seq<u8> {
        if self.position() <= self.bytes().len() {
            self.bytes().skip(self.position() as int)
        } else {
            Seq::empty()
        }
    }

    /// A reader positioned at the start of `data`.
    pub fn new(data: Vec<u8>) -> (r: ByteReader)
        ensures
            r.bytes() == data@,
            r.remaining() == data@,
    {
        let r = ByteReader { data, pos: 0 };
        proof {
            assert(r.remaining() =~= r.data@);
        }
        r
    }

    /// True exactly when no bytes are left to read.
    pub fn eof(&self) -> (b: bool)
        ensures
            b == (self.remaining().len() == 0),
    {
        self.pos >= self.data.len()
    }

    /// How many bytes are left to read.
    pub fn remaining_len(&self) -> (n: usize)
        ensures
            n == self.remaining().len(),
    {
        if self.pos <= self.data.len() {
            self.data.len() - self.pos
        } else {
            0
        }
    }

    /// Reads a single byte.
    pub fn read_byte(&mut self) -> (r: Result<u8, Error>)
        ensures
            final(self).bytes() == old(self).bytes(),
            old(self).remaining().len() >= 1 ==> r == Ok::<u8, Error>(old(self).remaining()[0]) && final(self).remaining() == old(self).remaining().skip(1),
            old(self).remaining().len() < 1 ==> r == Err::<u8, Error>(Error::Io) && final(self).remaining() == old(self).remaining(),
    {
        if self.pos < self.data.len() {
            let b = self.data[self.pos];
            self.pos = self.pos + 1;
            proof {
                assert(self.remaining() =~= old(self).remaining().skip(1));
            }
            Ok(b)
        } else {
            Err(Error::Io)
        }
    }

    /// Reads a little-endian 16-bit integer.
    pub fn read_le_u16(&mut self) -> (r: Result<u16, Error>)
        ensures
            final(self).bytes() == old(self).bytes(),
            old(self).remaining().len() >= 2 ==> r == Ok::<u16, Error>(
                spec_le_u16(old(self).remaining().take(2)),
            ) && final(self).remaining() == old(self).remaining().skip(2),
            old(self).remaining().len() < 2 ==> r == Err::<u16, Error>(Error::Io) && final(self).remaining() == old(self).remaining(),
    {
        if self.pos <= self.data.len() && self.data.len() - self.pos >= 2 {
            let b0 = self.data[self.pos] as u16;
            let b1 = self.data[self.pos + 1] as u16;
            self.pos = self.pos + 2;
            proof {
                assert(self.remaining() =~= old(self).remaining().skip(2));
                assert(old(self).remaining().take(2)[0] == old(self).bytes()[old(self).position() as int]);
                assert(old(self).remaining().take(2)[1] == old(self).bytes()[old(self).position() + 1int]);
            }
            Ok(b0 + b1 * 0x100)
        } else {
            Err(Error::Io)
        }
    }

    /// Reads a little-endian 32-bit integer.
    pub fn read_le_u32(&mut self) -> (r: Result<u32, Error>)
        ensures
            final(self).bytes() == old(self).bytes(),
            old(self).remaining().len() >= 4 ==> r == Ok::<u32, Error>(
                spec_le_u32(old(self).remaining().take(4)),
            ) && final(self).remaining() == old(self).remaining().skip(4),
            old(self).remaining().len() < 4 ==> r == Err::<u32, Error>(Error::Io) && final(self).remaining() == old(self).remaining(),
    {
        if self.pos <= self.data.len() && self.data.len() - self.pos >= 4 {
            let b0 = self.data[self.pos] as u32;
            let b1 = self.data[self.pos + 1] as u32;
            let b2 = self.data[self.pos + 2] as u32;
            let b3 = self.data[self.pos + 3] as u32;
            self.pos = self.pos + 4;
            proof {
                assert(self.remaining() =~= old(self).remaining().skip(4));
                assert forall|i: int| 0 <= i < 4 implies old(self).remaining().take(4)[i] == old(self).bytes()[old(self).position() + i] by {
                }
            }
            Ok(b0 + b1 * 0x100 + b2 * 0x10000 + b3 * 0x1000000)
        } else {
            Err(Error::Io)
        }
    }

    /// Reads a little-endian 64-bit integer.
    pub fn read_le_u64(&mut self) -> (r: Result<u64, Error>)
        ensures
            final(self).bytes() == old(self).bytes(),
            old(self).remaining().len() >= 8 ==> r == Ok::<u64, Error>(
                spec_le_u64(old(self).remaining().take(8)),
            ) && final(self).remaining() == old(self).remaining().skip(8),
            old(self).remaining().len() < 8 ==> r == Err::<u64, Error>(Error::Io) && final(self).remaining() == old(self).remaining(),
    {
        if self.pos <= self.data.len() && self.data.len() - self.pos >= 8 {
            let b0 = self.data[self.pos] as u64;
            let b1 = self.data[self.pos + 1] as u64;
            let b2 = self.data[self.pos + 2] as u64;
            let b3 = self.data[self.pos + 3] as u64;
            let b4 = self.data[self.pos + 4] as u64;
            let b5 = self.data[self.pos + 5] as u64;
            let b6 = self.data[self.pos + 6] as u64;
            let b7 = self.data[self.pos + 7] as u64;
            self.pos = self.pos + 8;
            proof {
                assert(self.remaining() =~= old(self).remaining().skip(8));
                assert forall|i: int| 0 <= i < 8 implies old(self).remaining().take(8)[i] == old(self).bytes()[old(self).position() + i] by {
                }
            }
            Ok(
                b0 + b1 * 0x100 + b2 * 0x10000 + b3 * 0x1000000 + b4 * 0x100000000 + b5
                    * 0x10000000000 + b6 * 0x1000000000000 + b7 * 0x100000000000000,
            )
        } else {
            Err(Error::Io)
        }
    }

    /// Reads exactly `n` bytes into a fresh buffer.
    pub fn read_exact(&mut self, n: usize) -> (r: Result<Vec<u8>, Error>)
        ensures
            final(self).bytes() == old(self).bytes(),
            old(self).remaining().len() >= n ==> (match r {
                Ok(v) => v@ == old(self).remaining().take(n as int) && final(self).remaining()
                    == old(self).remaining().skip(n as int),
                Err(_) => false,
            }),
            old(self).remaining().len() < n ==> r == Err::<Vec<u8>, Error>(Error::Io) && final(self).remaining() == old(self).remaining(),
    {
        if self.pos <= self.data.len() && self.data.len() - self.pos >= n {
            let mut out: Vec<u8> = Vec::new();
            let mut i: usize = 0;
            while i < n
                invariant
                    self.pos + n <= self.data.len(),
                    i <= n,
                    out@ =~= self.data@.subrange(self.pos as int, self.pos + i),
                decreases n - i,
            {
                out.push(self.data[self.pos + i]);
                i = i + 1;
                proof {
                    assert(out@ =~= self.data@.subrange(self.pos as int, self.pos + i));
                }
            }
            self.pos = self.pos + n;
            proof {
                assert(self.remaining() =~= old(self).remaining().skip(n as int));
                assert(out@ =~= old(self).remaining().take(n as int));
            }
            Ok(out)
        } else if n == 0 {
            let out: Vec<u8> = Vec::new();
            proof {
                assert(out@ =~= old(self).remaining().take(0));
                assert(self.remaining() =~= old(self).remaining().skip(0));
            }
            Ok(out)
        } else {
            Err(Error::Io)
        }
    }
}

} // verus!
