//! The Enhanced Packet block: one captured packet with its data and
//! per-packet options.

use vstd::prelude::*;

use crate::align::spec_align4;
use crate::bytes::spec_le_u32;
use crate::bytes::spec_le_u64;
use crate::error::Error;
use crate::error::FormatError;
use crate::options::read_option;
use crate::options::spec_read_option;
use crate::reader::ByteReader;
use crate::text::string_from_utf8;
use crate::text::utf8_decode;

verus! {

/// One decoded option of an Enhanced Packet block.
///
/// The decoder recognises the code for `Comment` (1); the remaining
/// variants belong to the block's documented vocabulary but no code is
/// mapped to them, so meeting one of their codes is an unknown-option
/// error.
#[derive(Debug, Clone, PartialEq)]
pub enum EnhancedPacketBlockOption {
    Comment(String),
    Flags(u32),
    Hash,
    /// Number of packets lost since the last packet.
    DropCount(u64),
}

/// The mathematical value of an Enhanced Packet option.
pub enum EnhancedPacketBlockOptionV {
    Comment(Seq<char>),
    Flags(u32),
    Hash,
    DropCount(u64),
}

impl View for EnhancedPacketBlockOption {
    type V = EnhancedPacketBlockOptionV;

    open spec fn view(&self) -> EnhancedPacketBlockOptionV {
        match self {
            EnhancedPacketBlockOption::Comment(s) => EnhancedPacketBlockOptionV::Comment(s@),
            EnhancedPacketBlockOption::Flags(v) => EnhancedPacketBlockOptionV::Flags(*v),
            EnhancedPacketBlockOption::Hash => EnhancedPacketBlockOptionV::Hash,
            EnhancedPacketBlockOption::DropCount(v) => EnhancedPacketBlockOptionV::DropCount(*v),
        }
    }
}

impl DeepView for EnhancedPacketBlockOption {
    type V = EnhancedPacketBlockOptionV;

    open spec fn deep_view(&self) -> EnhancedPacketBlockOptionV {
        self.view()
    }
}

/// A decoded Enhanced Packet block.
#[derive(Debug, Clone, PartialEq)]
pub struct EnhancedPacketBlock {
    pub interface_id: u32,
    pub timestamp: u64,
    /// Number of bytes captured from the packet.
    pub captured_len: u32,
    /// Actual length of the packet when it was transmitted on the network.
    pub len: u32,
    pub data: Vec<u8>,
    pub options: Vec<EnhancedPacketBlockOption>,
}

/// The mathematical value of an Enhanced Packet block.
pub struct EnhancedPacketBlockV {
    pub interface_id: u32,
    pub timestamp: u64,
    pub captured_len: u32,
    pub len: u32,
    pub data: Seq<u8>,
    pub options: Seq<EnhancedPacketBlockOptionV>,
}

impl View for EnhancedPacketBlock {
    type V = EnhancedPacketBlockV;

    open spec fn view(&self) -> EnhancedPacketBlockV {
        EnhancedPacketBlockV {
            interface_id: self.interface_id,
            timestamp: self.timestamp,
            captured_len: self.captured_len,
            len: self.len,
            data: self.data@,
            options: self.options.deep_view(),
        }
    }
}

/// How an Enhanced Packet decoder interprets one raw option record: code 1
/// is the string-valued comment; any other code is unknown.
pub open spec fn spec_enhanced_packet_option(code: u16, v: Seq<u8>) -> Result<
    EnhancedPacketBlockOptionV,
    Error,
> {
    if code == 1 {
        match utf8_decode(v) {
            Some(text) => Ok(EnhancedPacketBlockOptionV::Comment(text)),
            None => Err(Error::FormatError(FormatError::Utf8Error)),
        }
    } else {
        Err(Error::FormatError(FormatError::UnknownOption))
    }
}

/// The typed option chain of an Enhanced Packet payload.
pub open spec fn spec_enhanced_packet_options(s: Seq<u8>) -> Result<
    (Seq<EnhancedPacketBlockOptionV>, Seq<u8>),
    Error,
>
    decreases s.len(),
{
    if s.len() == 0 {
        Ok((Seq::empty(), s))
    } else {
        match spec_read_option(s) {
            Err(e) => Err(e),
            Ok(((code, value), rest)) => {
                if code == 0 {
                    Ok((Seq::empty(), rest))
                } else {
                    match spec_enhanced_packet_option(code, value) {
                        Err(e) => Err(e),
                        Ok(o) => match spec_enhanced_packet_options(rest) {
                            Err(e) => Err(e),
                            Ok((tail, fin)) => Ok((seq![o].add(tail), fin)),
                        },
                    }
                }
            },
        }
    }
}

/// What decoding an Enhanced Packet block out of payload `s` yields: the
/// fixed fields, the packet data occupying `align4(captured_len)` bytes on
/// the wire but truncated to `captured_len` logical bytes, then the option
/// chain.
pub open spec fn spec_enhanced_packet(s: Seq<u8>) -> Result<(EnhancedPacketBlockV, Seq<u8>), Error> {
    if s.len() < 20 {
        Err(Error::Io)
    } else {
        let captured_len = spec_le_u32(s.subrange(12, 16)) as int;
        let aligned = spec_align4(captured_len);
        if s.len() < 20 + aligned {
            Err(Error::Io)
        } else {
            match spec_enhanced_packet_options(s.skip(20 + aligned)) {
                Err(e) => Err(e),
                Ok((opts, rest)) => Ok(
                    (
                        EnhancedPacketBlockV {
                            interface_id: spec_le_u32(s.take(4)),
                            timestamp: spec_le_u64(s.subrange(4, 12)),
                            captured_len: spec_le_u32(s.subrange(12, 16)),
                            len: spec_le_u32(s.subrange(16, 20)),
                            data: s.subrange(20, 20 + captured_len),
                            options: opts,
                        },
                        rest,
                    ),
                ),
            }
        }
    }
}

/// Reads the option chain of an Enhanced Packet payload, mapping each
/// record to its typed option as it is read.
fn read_enhanced_packet_options(r: &mut ByteReader) -> (res: Result<
    Vec<EnhancedPacketBlockOption>,
    Error,
>)
    ensures
        final(r).bytes() == old(r).bytes(),
        match res {
            Ok(opts) => spec_enhanced_packet_options(old(r).remaining()) == Ok::<_, Error>(
                (opts.deep_view(), final(r).remaining()),
            ),
            Err(e) => spec_enhanced_packet_options(old(r).remaining()) == Err::<
                (Seq<EnhancedPacketBlockOptionV>, Seq<u8>),
                Error,
            >(e),
        },
    decreases r.remaining().len(),
{
    let ghost s = r.remaining();
    if r.eof() {
        let empty: Vec<EnhancedPacketBlockOption> = Vec::new();
        proof {
            assert(empty.deep_view() =~= Seq::<EnhancedPacketBlockOptionV>::empty());
        }
        return Ok(empty);
    }
    let (code, data) = match read_option(r) {
        Ok(p) => p,
        Err(e) => {
            return Err(e);
        },
    };
    let ghost dv = data@;
    if code == 0 {
        let empty: Vec<EnhancedPacketBlockOption> = Vec::new();
        proof {
            assert(empty.deep_view() =~= Seq::<EnhancedPacketBlockOptionV>::empty());
        }
        return Ok(empty);
    }
    let opt: EnhancedPacketBlockOption = if code == 1 {
        match string_from_utf8(data) {
            Some(text) => EnhancedPacketBlockOption::Comment(text),
            None => {
                return Err(Error::FormatError(FormatError::Utf8Error));
            },
        }
    } else {
        return Err(Error::FormatError(FormatError::UnknownOption));
    };
    proof {
        assert(spec_enhanced_packet_option(code, dv) == Ok::<EnhancedPacketBlockOptionV, Error>(
            opt@,
        ));
        assert(r.remaining().len() < s.len());
    }
    let mut tail = match read_enhanced_packet_options(r) {
        Ok(t) => t,
        Err(e) => {
            return Err(e);
        },
    };
    let ghost tv = tail.deep_view();
    tail.insert(0, opt);
    proof {
        assert(tail.deep_view() =~= seq![opt@].add(tv));
    }
    Ok(tail)
}

impl EnhancedPacketBlock {
    /// Decodes an Enhanced Packet block from the payload bytes handed out
    /// by the framer: the fixed fields, the packet data padded on the wire
    /// to a four-byte boundary but truncated to `captured_len` logical
    /// bytes, then the option chain.
    pub fn read(r: &mut ByteReader) -> (res: Result<EnhancedPacketBlock, Error>)
        ensures
            final(r).bytes() == old(r).bytes(),
            match res {
                Ok(b) => spec_enhanced_packet(old(r).remaining()) == Ok::<_, Error>(
                    (b@, final(r).remaining()),
                ),
                Err(e) => spec_enhanced_packet(old(r).remaining()) == Err::<
                    (EnhancedPacketBlockV, Seq<u8>),
                    Error,
                >(e),
            },
    {
        let ghost s = old(r).remaining();
        let interface_id = match r.read_le_u32() {
            Ok(v) => v,
            Err(e) => {
                return Err(e);
            },
        };
        let timestamp = match r.read_le_u64() {
            Ok(v) => v,
            Err(e) => {
                return Err(e);
            },
        };
        proof {
            assert(s.skip(4).take(8) =~= s.subrange(4, 12));
            assert(s.skip(4).skip(8) =~= s.skip(12));
        }
        let captured_len = match r.read_le_u32() {
            Ok(v) => v,
            Err(e) => {
                return Err(e);
            },
        };
        proof {
            assert(s.skip(12).take(4) =~= s.subrange(12, 16));
            assert(s.skip(12).skip(4) =~= s.skip(16));
        }
        let len = match r.read_le_u32() {
            Ok(v) => v,
            Err(e) => {
                return Err(e);
            },
        };
        proof {
            assert(s.skip(16).take(4) =~= s.subrange(16, 20));
            assert(s.skip(16).skip(4) =~= s.skip(20));
        }
        // The packet data occupies align4(captured_len) bytes on the wire;
        // the logical bytes and the padding are consumed as two reads so
        // the count can never overflow a usize.
        let cap = captured_len as usize;
        let data = match r.read_exact(cap) {
            Ok(d) => d,
            Err(e) => {
                proof {
                    lemma_cap_short(s, captured_len);
                }
                return Err(e);
            },
        };
        proof {
            assert(data@ =~= s.subrange(20, 20 + cap as int));
            assert(s.skip(20).skip(cap as int) =~= s.skip(20 + cap as int));
        }
        let rem: usize = cap % 4;
        if rem != 0 {
            let pad: usize = 4 - rem;
            match r.read_exact(pad) {
                Ok(p) => {
                    let _ = p;
                },
                Err(e) => {
                    proof {
                        lemma_pad_short(s, captured_len, r.remaining().len());
                    }
                    return Err(e);
                },
            };
            proof {
                assert(spec_align4(cap as int) == cap + pad);
                assert(s.skip(20 + cap as int).skip(pad as int) =~= s.skip(
                    20 + spec_align4(cap as int),
                ));
            }
        } else {
            proof {
                assert(spec_align4(cap as int) == cap);
            }
        }
        let options = match read_enhanced_packet_options(r) {
            Ok(o) => o,
            Err(e) => {
                return Err(e);
            },
        };
        Ok(
            EnhancedPacketBlock {
                interface_id,
                timestamp,
                captured_len,
                len,
                data,
                options,
            },
        )
    }
}

/// When the stream cannot supply even the unpadded packet data, it is also
/// short of the padded count the block declares.
proof fn lemma_cap_short(s: Seq<u8>, captured_len: u32)
    requires
        s.len() >= 20,
        spec_le_u32(s.subrange(12, 16)) == captured_len,
        s.len() - 20 < captured_len,
    ensures
        s.len() < 20 + spec_align4(captured_len as int),
{
    crate::align::lemma_align4_properties(captured_len as int);
}

/// When the packet data fit but its trailing padding does not, the stream
/// is short of the padded count the block declares.
proof fn lemma_pad_short(s: Seq<u8>, captured_len: u32, left: nat)
    requires
        s.len() >= 20 + captured_len,
        captured_len as int % 4 != 0,
        left == s.len() - 20 - captured_len,
        left < 4 - (captured_len as int % 4),
    ensures
        s.len() < 20 + spec_align4(captured_len as int),
{
    crate::align::lemma_align4_properties(captured_len as int);
}

} // verus!

verus! {

/// The typed option chain of an Enhanced Packet payload follows the raw
/// cursor record for record: when it succeeds, the raw chain succeeds on
/// the same bytes, stops at the same place, and each typed option is the
/// block's interpretation of the raw record in the same position.
pub proof fn lemma_enhanced_packet_options_follow_raw(s: Seq<u8>)
    ensures
        spec_enhanced_packet_options(s) matches Ok(p) ==> {
            &&& crate::options::spec_raw_options(s) is Ok
            &&& crate::options::spec_raw_options(s)->Ok_0.1 == p.1
            &&& crate::options::spec_raw_options(s)->Ok_0.0.len() == p.0.len()
            &&& forall|i: int|
                0 <= i < p.0.len() ==> spec_enhanced_packet_option(
                    (#[trigger] crate::options::spec_raw_options(s)->Ok_0.0[i]).0,
                    crate::options::spec_raw_options(s)->Ok_0.0[i].1,
                ) == Ok::<EnhancedPacketBlockOptionV, Error>(p.0[i])
        },
    decreases s.len(),
{
    if s.len() == 0 {
    } else {
        let step = spec_read_option(s);
        if step is Ok {
            let ((code, value), rest) = step->Ok_0;
            assert(rest.len() < s.len());
            if code != 0 {
                lemma_enhanced_packet_options_follow_raw(rest);
                if spec_enhanced_packet_options(s) is Ok && spec_enhanced_packet_option(code, value)
                    is Ok && spec_enhanced_packet_options(rest) is Ok && crate::options::spec_raw_options(
                    rest,
                ) is Ok {
                    let o = spec_enhanced_packet_option(code, value)->Ok_0;
                    let (tail, _fin) = spec_enhanced_packet_options(rest)->Ok_0;
                    let (rtail, _rfin) = crate::options::spec_raw_options(rest)->Ok_0;
                    let whole = seq![o].add(tail);
                    let rwhole = seq![(code, value)].add(rtail);
                    assert forall|i: int| 0 <= i < whole.len() implies spec_enhanced_packet_option(
                        (#[trigger] rwhole[i]).0,
                        rwhole[i].1,
                    ) == Ok::<EnhancedPacketBlockOptionV, Error>(whole[i]) by {
                        if i > 0 {
                            assert(rwhole[i] == rtail[i - 1]);
                            assert(whole[i] == tail[i - 1]);
                        }
                    }
                }
            }
        }
    }
}

} // verus!
