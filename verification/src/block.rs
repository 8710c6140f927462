//! The block framer: the outer envelope shared by every record kind.
//!
//! A block is framed as a 32-bit type tag, a 32-bit `total_length` counted
//! over the whole block, the payload padded to a four-byte boundary, and a
//! repeated 32-bit `total_length`. The framer validates that the two length
//! fields match and hands back the raw type tag and payload; it never
//! interprets the payload.

use vstd::prelude::*;

use crate::align::dword_aligned;
use crate::align::lemma_align4_properties;
use crate::align::spec_align4;
use crate::bytes::spec_le_u32;
use crate::enhanced_packet::EnhancedPacketBlock;
use crate::error::Error;
use crate::error::FormatError;
use crate::interface_description::InterfaceDescriptionBlock;
use crate::interface_statistics::InterfaceStatisticsBlock;
use crate::reader::ByteReader;
use crate::section_header::SectionHeaderBlock;

verus! {

/// One decoded record of the capture format: the closed union of the four
/// block kinds. Dispatch from a raw type tag to the matching decoder is the
/// caller's concern; each variant owns its fields and options outright.
#[derive(Debug, Clone, PartialEq)]
pub enum Block {
    SectionHeader(SectionHeaderBlock),
    InterfaceDescription(InterfaceDescriptionBlock),
    InterfaceStatistics(InterfaceStatisticsBlock),
    EnhancedPacket(EnhancedPacketBlock),
}

/// What framing one block out of `s` yields: the raw type tag, the payload
/// truncated to `total_length - 12` logical bytes, and the bytes after the
/// block, or the error framing stops with. A short stream is `Error::Io`; a
/// trailing length field that does not repeat `total_length` is the framing
/// corruption error. A `total_length` below the twelve envelope bytes
/// cannot frame any block and surfaces as a short read.
pub open spec fn spec_read_block(s: Seq<u8>) -> Result<((u32, Seq<u8>), Seq<u8>), Error> {
    if s.len() < 8 {
        Err(Error::Io)
    } else {
        let block_type = spec_le_u32(s.take(4));
        let total_len = spec_le_u32(s.subrange(4, 8)) as int;
        if total_len < 12 {
            Err(Error::Io)
        } else {
            let data_len = total_len - 12;
            let aligned = spec_align4(data_len);
            if s.len() < 12 + aligned {
                Err(Error::Io)
            } else if spec_le_u32(s.subrange(8 + aligned, 12 + aligned)) != total_len {
                Err(Error::FormatError(FormatError::LengthMismatch))
            } else {
                Ok(((block_type, s.subrange(8, 8 + data_len)), s.skip(12 + aligned)))
            }
        }
    }
}

/// Frames one block: reads its type tag and `total_length`, consumes the
/// padded payload truncated to its logical length, and validates that the
/// trailing length field repeats `total_length`.
pub fn read_block(r: &mut ByteReader) -> (res: Result<(u32, Vec<u8>), Error>)
    ensures
        final(r).bytes() == old(r).bytes(),
        match res {
            Ok(p) => spec_read_block(old(r).remaining()) == Ok::<_, Error>(
                ((p.0, p.1@), final(r).remaining()),
            ),
            Err(e) => spec_read_block(old(r).remaining()) == Err::<((u32, Seq<u8>), Seq<u8>),
                Error,
            >(e) && final(r).remaining().len() <= old(r).remaining().len(),
        },
{
    let ghost s = old(r).remaining();
    let block_type = match r.read_le_u32() {
        Ok(t) => t,
        Err(e) => {
            return Err(e);
        },
    };
    let total_len = match r.read_le_u32() {
        Ok(t) => t,
        Err(e) => {
            return Err(e);
        },
    };
    proof {
        assert(s.skip(4).take(4) =~= s.subrange(4, 8));
    }
    if total_len < 12 {
        return Err(Error::Io);
    }
    let data_len = total_len - 12;
    proof {
        lemma_align4_properties(data_len as int);
    }
    let aligned = dword_aligned(data_len as usize);
    let data_full = match r.read_exact(aligned) {
        Ok(d) => d,
        Err(e) => {
            return Err(e);
        },
    };
    let mut data = data_full;
    data.truncate(data_len as usize);
    proof {
        assert(s.skip(4).skip(4) =~= s.skip(8));
        assert(data@ =~= s.subrange(8, 8 + data_len as int));
    }
    let trailing = match r.read_le_u32() {
        Ok(t) => t,
        Err(e) => {
            proof {
                let aligned4 = spec_align4(data_len as int);
                assert(s.skip(8).skip(aligned4) =~= s.skip(8 + aligned4));
            }
            return Err(e);
        },
    };
    proof {
        let aligned4 = spec_align4(data_len as int);
        assert(s.skip(8).skip(aligned4) =~= s.skip(8 + aligned4));
        assert(s.skip(8 + aligned4).take(4) =~= s.subrange(8 + aligned4, 12 + aligned4));
        assert(s.skip(8 + aligned4).skip(4) =~= s.skip(12 + aligned4));
    }
    if trailing != total_len {
        return Err(Error::FormatError(FormatError::LengthMismatch));
    }
    Ok((block_type, data))
}

/// Framing validates the envelope: whenever it succeeds, the trailing
/// length field of the block equals the leading `total_length` field, and
/// the block consumed exactly `total_length` bytes of the stream, padding
/// included.
pub proof fn lemma_block_framing(s: Seq<u8>)
    ensures
        spec_read_block(s) matches Ok(p) ==> {
            let total_len = spec_le_u32(s.subrange(4, 8)) as int;
            let aligned = spec_align4(total_len - 12);
            &&& spec_le_u32(s.subrange(8 + aligned, 12 + aligned)) == total_len
            &&& p.1 == s.skip(12 + aligned)
            &&& total_len % 4 == 0 ==> s.len() - p.1.len() == total_len
        },
{
    if spec_read_block(s) is Ok {
        let total_len = spec_le_u32(s.subrange(4, 8)) as int;
        lemma_align4_properties(total_len - 12);
    }
}

} // verus!
