//! The generic option (code-length-value) cursor.
//!
//! A block's trailing bytes hold a chain of option records: a 16-bit code, a
//! 16-bit length, and a value padded on the wire to a four-byte boundary but
//! logically truncated to the declared length. The chain ends at a record
//! with code 0 (the terminator, never part of the decoded chain) or when the
//! bytes are exhausted. This cursor is type-agnostic: what a code means is
//! decided by each block-type decoder.

use vstd::prelude::*;

use crate::align::dword_aligned;
use crate::align::lemma_align4_properties;
use crate::align::spec_align4;
use crate::bytes::spec_le_u16;
use crate::error::Error;
use crate::reader::ByteReader;

verus! {

/// What reading one raw option record from `s` yields: the code, the value
/// truncated to the declared length, and the bytes left after the padded
/// value, or `Error::Io` when `s` is too short for the declared layout.
pub open spec fn spec_read_option(s: Seq<u8>) -> Result<((u16, Seq<u8>), Seq<u8>), Error> {
    if s.len() < 4 {
        Err(Error::Io)
    } else {
        let code = spec_le_u16(s.take(2));
        let len = spec_le_u16(s.subrange(2, 4)) as int;
        if s.len() < 4 + spec_align4(len) {
            Err(Error::Io)
        } else {
            Ok(((code, s.subrange(4, 4 + len)), s.skip(4 + spec_align4(len))))
        }
    }
}

/// The whole raw option chain of `s`: every (code, value) record before the
/// terminator, and the bytes left unread after the chain stopped. The chain
/// stops exactly at a code-0 record or at exhaustion.
pub open spec fn spec_raw_options(s: Seq<u8>) -> Result<(Seq<(u16, Seq<u8>)>, Seq<u8>), Error>
    decreases s.len(),
{
    if s.len() == 0 {
        Ok((Seq::empty(), s))
    } else {
        match spec_read_option(s) {
            Err(e) => Err(e),
            Ok(((code, value), rest)) => {
                if code == 0 {
                    Ok((Seq::empty(), rest))
                } else {
                    match spec_raw_options(rest) {
                        Err(e) => Err(e),
                        Ok((tail, fin)) => Ok((seq![(code, value)].add(tail), fin)),
                    }
                }
            },
        }
    }
}

/// Reads one raw option record: its code, and its value truncated to the
/// declared length while the padded byte count is consumed from the stream.
pub fn read_option(r: &mut ByteReader) -> (res: Result<(u16, Vec<u8>), Error>)
    ensures
        final(r).bytes() == old(r).bytes(),
        match res {
            Ok(p) => spec_read_option(old(r).remaining()) == Ok::<_, Error>(
                ((p.0, p.1@), final(r).remaining()),
            ),
            Err(e) => spec_read_option(old(r).remaining()) == Err::<((u16, Seq<u8>), Seq<u8>),
                Error,
            >(e) && final(r).remaining().len() <= old(r).remaining().len(),
        },
{
    let ghost s = old(r).remaining();
    let code = match r.read_le_u16() {
        Ok(c) => c,
        Err(e) => {
            return Err(e);
        },
    };
    let len = match r.read_le_u16() {
        Ok(l) => l,
        Err(e) => {
            return Err(e);
        },
    };
    proof {
        assert(s.skip(2).take(2) =~= s.subrange(2, 4));
        lemma_align4_properties(len as int);
    }
    let aligned = dword_aligned(len as usize);
    let data_full = match r.read_exact(aligned) {
        Ok(d) => d,
        Err(e) => {
            return Err(e);
        },
    };
    let mut data = data_full;
    data.truncate(len as usize);
    proof {
        assert(s.skip(2).skip(2) =~= s.skip(4));
        assert(data@ =~= s.subrange(4, 4 + len as int));
        assert(s.skip(4).skip(spec_align4(len as int)) =~= s.skip(4 + spec_align4(len as int)));
    }
    Ok((code, data))
}

/// An option value whose declared length is not a multiple of four still
/// consumes the padded byte count from the stream while exposing only the
/// declared number of logical bytes: reading one record always consumes the
/// four-byte record header plus the value rounded up to a four-byte
/// boundary, and hands out exactly the declared length.
pub proof fn lemma_option_padding(s: Seq<u8>)
    ensures
        spec_read_option(s) matches Ok(p) ==> {
            let len = spec_le_u16(s.subrange(2, 4)) as int;
            &&& p.0.1.len() == len
            &&& p.1 == s.skip(4 + spec_align4(len))
            &&& s.len() - p.1.len() == 4 + spec_align4(len)
        },
{
    if spec_read_option(s) is Ok {
        let len = spec_le_u16(s.subrange(2, 4)) as int;
        lemma_align4_properties(len);
    }
}

/// The option cursor never hands a terminator record out as a real option:
/// every code in a successfully decoded raw chain is non-zero.
pub proof fn lemma_option_chain_no_terminator(s: Seq<u8>)
    ensures
        spec_raw_options(s) matches Ok(p) ==> forall|i: int|
            0 <= i < p.0.len() ==> (#[trigger] p.0[i]).0 != 0,
    decreases s.len(),
{
    if s.len() == 0 {
    } else {
        let step = spec_read_option(s);
        if step is Ok {
            let ((code, value), rest) = step->Ok_0;
            assert(rest.len() < s.len());
            if code != 0 {
                lemma_option_chain_no_terminator(rest);
                if spec_raw_options(rest) is Ok {
                    let (tail, _fin) = spec_raw_options(rest)->Ok_0;
                    let whole = seq![(code, value)].add(tail);
                    assert forall|i: int| 0 <= i < whole.len() implies (#[trigger] whole[i]).0
                        != 0 by {
                        if i > 0 {
                            assert(whole[i] == tail[i - 1]);
                        }
                    }
                }
            }
        }
    }
}

} // verus!
