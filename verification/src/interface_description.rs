//! The Interface Description block (type 1): link type, snapshot length,
//! and the per-interface option vocabulary.

use vstd::prelude::*;

use crate::bytes::spec_le_u16;
use crate::bytes::spec_le_u32;
use crate::bytes::spec_le_u48;
use crate::error::Error;
use crate::error::FormatError;
use crate::options::read_option;
use crate::options::spec_read_option;
use crate::reader::ByteReader;
use crate::text::string_from_utf8;
use crate::text::utf8_decode;

verus! {

/// One decoded option of an Interface Description block.
///
/// The decoder recognises the codes for `Comment` (1), `Name` (2),
/// `Description` (3), `Ipv4Addr` (4), `MacAddr` (6), `TsResolution` (9) and
/// `OS` (12); the remaining variants belong to the block's documented
/// vocabulary but no code is mapped to them, so meeting one of their codes
/// is an unknown-option error.
#[derive(Debug, Clone, PartialEq)]
pub enum InterfaceDescriptionOption {
    /// Comment associated with the current block.
    Comment(String),
    /// Name of the device used to capture data.
    Name(String),
    /// Description of the device used to capture data.
    Description(String),
    /// IPv4 interface address and netmask.
    Ipv4Addr(u32, u32),
    /// IPv6 interface address and prefix length.
    Ipv6Addr(u128, u8),
    /// Hardware MAC address (48 bits).
    MacAddr(u64),
    /// Hardware EUI address.
    EuiAddr(u64),
    /// Interface speed in bits per second.
    Speed(u64),
    /// Resolution of timestamps: with the top bit clear the remaining bits
    /// are a negative power of ten, with it set a negative power of two.
    TsResolution(u8),
    /// Timezone for GMT support.
    Timezone(u32),
    /// The filter used to capture traffic; the first byte gives the filter
    /// kind, the rest its body.
    Filter(u8, Vec<u8>),
    /// Operating system of the machine holding this interface; can differ
    /// from the Section Header's when the capture was done remotely.
    OS(String),
    /// Length of the Frame Check Sequence in bits for this interface.
    FcsLen(u8),
    /// Offset of the timestamp in seconds.
    TsOffset(u64),
}

/// The mathematical value of an Interface Description option.
pub enum InterfaceDescriptionOptionV {
    Comment(Seq<char>),
    Name(Seq<char>),
    Description(Seq<char>),
    Ipv4Addr(u32, u32),
    Ipv6Addr(u128, u8),
    MacAddr(u64),
    EuiAddr(u64),
    Speed(u64),
    TsResolution(u8),
    Timezone(u32),
    Filter(u8, Seq<u8>),
    OS(Seq<char>),
    FcsLen(u8),
    TsOffset(u64),
}

impl View for InterfaceDescriptionOption {
    type V = InterfaceDescriptionOptionV;

    open spec fn view(&self) -> InterfaceDescriptionOptionV {
        match self {
            InterfaceDescriptionOption::Comment(s) => InterfaceDescriptionOptionV::Comment(s@),
            InterfaceDescriptionOption::Name(s) => InterfaceDescriptionOptionV::Name(s@),
            InterfaceDescriptionOption::Description(s) => InterfaceDescriptionOptionV::Description(
                s@,
            ),
            InterfaceDescriptionOption::Ipv4Addr(a, m) => InterfaceDescriptionOptionV::Ipv4Addr(
                *a,
                *m,
            ),
            InterfaceDescriptionOption::Ipv6Addr(a, p) => InterfaceDescriptionOptionV::Ipv6Addr(
                *a,
                *p,
            ),
            InterfaceDescriptionOption::MacAddr(a) => InterfaceDescriptionOptionV::MacAddr(*a),
            InterfaceDescriptionOption::EuiAddr(a) => InterfaceDescriptionOptionV::EuiAddr(*a),
            InterfaceDescriptionOption::Speed(v) => InterfaceDescriptionOptionV::Speed(*v),
            InterfaceDescriptionOption::TsResolution(v) => {
                InterfaceDescriptionOptionV::TsResolution(*v)
            },
            InterfaceDescriptionOption::Timezone(v) => InterfaceDescriptionOptionV::Timezone(*v),
            InterfaceDescriptionOption::Filter(k, b) => InterfaceDescriptionOptionV::Filter(
                *k,
                b@,
            ),
            InterfaceDescriptionOption::OS(s) => InterfaceDescriptionOptionV::OS(s@),
            InterfaceDescriptionOption::FcsLen(v) => InterfaceDescriptionOptionV::FcsLen(*v),
            InterfaceDescriptionOption::TsOffset(v) => InterfaceDescriptionOptionV::TsOffset(*v),
        }
    }
}

impl DeepView for InterfaceDescriptionOption {
    type V = InterfaceDescriptionOptionV;

    open spec fn deep_view(&self) -> InterfaceDescriptionOptionV {
        self.view()
    }
}

/// A decoded Interface Description block.
#[derive(Debug, Clone, PartialEq)]
pub struct InterfaceDescriptionBlock {
    /// Link layer type of the interface.
    pub link_type: u16,
    /// Maximum number of bytes stored from each packet.
    pub snap_len: u32,
    pub options: Vec<InterfaceDescriptionOption>,
}

/// The mathematical value of an Interface Description block.
pub struct InterfaceDescriptionBlockV {
    pub link_type: u16,
    pub snap_len: u32,
    pub options: Seq<InterfaceDescriptionOptionV>,
}

impl View for InterfaceDescriptionBlock {
    type V = InterfaceDescriptionBlockV;

    open spec fn view(&self) -> InterfaceDescriptionBlockV {
        InterfaceDescriptionBlockV {
            link_type: self.link_type,
            snap_len: self.snap_len,
            options: self.options.deep_view(),
        }
    }
}

/// How an Interface Description decoder interprets one raw option record:
/// codes 1, 2, 3 and 12 are string-valued, code 4 holds an IPv4 address and
/// netmask, code 6 a six-byte MAC address, code 9 a one-byte timestamp
/// resolution; any other code is unknown. A value too short for its
/// structured fields is a short read.
pub open spec fn spec_interface_description_option(code: u16, v: Seq<u8>) -> Result<
    InterfaceDescriptionOptionV,
    Error,
> {
    if code == 1 || code == 2 || code == 3 || code == 12 {
        match utf8_decode(v) {
            Some(text) => Ok(
                if code == 1 {
                    InterfaceDescriptionOptionV::Comment(text)
                } else if code == 2 {
                    InterfaceDescriptionOptionV::Name(text)
                } else if code == 3 {
                    InterfaceDescriptionOptionV::Description(text)
                } else {
                    InterfaceDescriptionOptionV::OS(text)
                },
            ),
            None => Err(Error::FormatError(FormatError::Utf8Error)),
        }
    } else if code == 4 {
        if v.len() < 8 {
            Err(Error::Io)
        } else {
            Ok(InterfaceDescriptionOptionV::Ipv4Addr(spec_le_u32(v.take(4)), spec_le_u32(v.subrange(4, 8))))
        }
    } else if code == 6 {
        if v.len() < 6 {
            Err(Error::Io)
        } else {
            Ok(InterfaceDescriptionOptionV::MacAddr(spec_le_u48(v.take(6))))
        }
    } else if code == 9 {
        if v.len() < 1 {
            Err(Error::Io)
        } else {
            Ok(InterfaceDescriptionOptionV::TsResolution(v[0]))
        }
    } else {
        Err(Error::FormatError(FormatError::UnknownOption))
    }
}

/// The typed option chain of an Interface Description payload.
pub open spec fn spec_interface_description_options(s: Seq<u8>) -> Result<
    (Seq<InterfaceDescriptionOptionV>, Seq<u8>),
    Error,
>
    decreases s.len(),
{
    if s.len() == 0 {
        Ok((Seq::empty(), s))
    } else {
        match spec_read_option(s) {
            Err(e) => Err(e),
            Ok(((code, value), rest)) => {
                if code == 0 {
                    Ok((Seq::empty(), rest))
                } else {
                    match spec_interface_description_option(code, value) {
                        Err(e) => Err(e),
                        Ok(o) => match spec_interface_description_options(rest) {
                            Err(e) => Err(e),
                            Ok((tail, fin)) => Ok((seq![o].add(tail), fin)),
                        },
                    }
                }
            },
        }
    }
}

/// What decoding an Interface Description block out of payload `s` yields:
/// link type, a consumed-but-unused two-byte reserved field, snapshot
/// length, then the option chain.
pub open spec fn spec_interface_description(s: Seq<u8>) -> Result<
    (InterfaceDescriptionBlockV, Seq<u8>),
    Error,
> {
    if s.len() < 8 {
        Err(Error::Io)
    } else {
        match spec_interface_description_options(s.skip(8)) {
            Err(e) => Err(e),
            Ok((opts, rest)) => Ok(
                (
                    InterfaceDescriptionBlockV {
                        link_type: spec_le_u16(s.take(2)),
                        snap_len: spec_le_u32(s.subrange(4, 8)),
                        options: opts,
                    },
                    rest,
                ),
            ),
        }
    }
}

/// Reads the option chain of an Interface Description payload, mapping
/// each record to its typed option as it is read.
fn read_interface_description_options(r: &mut ByteReader) -> (res: Result<
    Vec<InterfaceDescriptionOption>,
    Error,
>)
    ensures
        final(r).bytes() == old(r).bytes(),
        match res {
            Ok(opts) => spec_interface_description_options(old(r).remaining()) == Ok::<_, Error>(
                (opts.deep_view(), final(r).remaining()),
            ),
            Err(e) => spec_interface_description_options(old(r).remaining()) == Err::<
                (Seq<InterfaceDescriptionOptionV>, Seq<u8>),
                Error,
            >(e),
        },
    decreases r.remaining().len(),
{
    let ghost s = r.remaining();
    if r.eof() {
        let empty: Vec<InterfaceDescriptionOption> = Vec::new();
        proof {
            assert(empty.deep_view() =~= Seq::<InterfaceDescriptionOptionV>::empty());
        }
        return Ok(empty);
    }
    let (code, data) = match read_option(r) {
        Ok(p) => p,
        Err(e) => {
            return Err(e);
        },
    };
    let ghost dv = data@;
    if code == 0 {
        let empty: Vec<InterfaceDescriptionOption> = Vec::new();
        proof {
            assert(empty.deep_view() =~= Seq::<InterfaceDescriptionOptionV>::empty());
        }
        return Ok(empty);
    }
    let opt: InterfaceDescriptionOption = if code == 1 || code == 2 || code == 3 || code == 12 {
        match string_from_utf8(data) {
            Some(text) => {
                if code == 1 {
                    InterfaceDescriptionOption::Comment(text)
                } else if code == 2 {
                    InterfaceDescriptionOption::Name(text)
                } else if code == 3 {
                    InterfaceDescriptionOption::Description(text)
                } else {
                    InterfaceDescriptionOption::OS(text)
                }
            },
            None => {
                return Err(Error::FormatError(FormatError::Utf8Error));
            },
        }
    } else if code == 4 {
        if data.len() < 8 {
            return Err(Error::Io);
        }
        let ip = data[0] as u32 + data[1] as u32 * 0x100 + data[2] as u32 * 0x10000 + data[3] as u32
            * 0x1000000;
        let mask = data[4] as u32 + data[5] as u32 * 0x100 + data[6] as u32 * 0x10000 + data[7] as u32
            * 0x1000000;
        proof {
            assert(ip == spec_le_u32(dv.take(4)));
            assert(mask == spec_le_u32(dv.subrange(4, 8)));
        }
        InterfaceDescriptionOption::Ipv4Addr(ip, mask)
    } else if code == 6 {
        if data.len() < 6 {
            return Err(Error::Io);
        }
        let mac = data[0] as u64 + data[1] as u64 * 0x100 + data[2] as u64 * 0x10000 + data[3] as u64
            * 0x1000000 + data[4] as u64 * 0x100000000 + data[5] as u64 * 0x10000000000;
        proof {
            assert(mac == spec_le_u48(dv.take(6)));
        }
        InterfaceDescriptionOption::MacAddr(mac)
    } else if code == 9 {
        if data.len() < 1 {
            return Err(Error::Io);
        }
        InterfaceDescriptionOption::TsResolution(data[0])
    } else {
        return Err(Error::FormatError(FormatError::UnknownOption));
    };
    proof {
        assert(spec_interface_description_option(code, dv) == Ok::<
            InterfaceDescriptionOptionV,
            Error,
        >(opt@));
        assert(r.remaining().len() < s.len());
    }
    let mut tail = match read_interface_description_options(r) {
        Ok(t) => t,
        Err(e) => {
            return Err(e);
        },
    };
    let ghost tv = tail.deep_view();
    tail.insert(0, opt);
    proof {
        assert(tail.deep_view() =~= seq![opt@].add(tv));
    }
    Ok(tail)
}

impl InterfaceDescriptionBlock {
    /// Decodes an Interface Description block from the payload bytes handed
    /// out by the framer: link type, a reserved two-byte field consumed but
    /// producing no value, snapshot length, then the option chain.
    pub fn read(r: &mut ByteReader) -> (res: Result<InterfaceDescriptionBlock, Error>)
        ensures
            final(r).bytes() == old(r).bytes(),
            match res {
                Ok(b) => spec_interface_description(old(r).remaining()) == Ok::<_, Error>(
                    (b@, final(r).remaining()),
                ),
                Err(e) => spec_interface_description(old(r).remaining()) == Err::<
                    (InterfaceDescriptionBlockV, Seq<u8>),
                    Error,
                >(e),
            },
    {
        let ghost s = old(r).remaining();
        let link_type = match r.read_le_u16() {
            Ok(v) => v,
            Err(e) => {
                return Err(e);
            },
        };
        let reserved = match r.read_le_u16() {
            Ok(v) => v,
            Err(e) => {
                return Err(e);
            },
        };
        let _ = reserved;
        proof {
            assert(s.skip(2).skip(2) =~= s.skip(4));
        }
        let snap_len = match r.read_le_u32() {
            Ok(v) => v,
            Err(e) => {
                return Err(e);
            },
        };
        proof {
            assert(s.skip(4).take(4) =~= s.subrange(4, 8));
            assert(s.skip(4).skip(4) =~= s.skip(8));
        }
        let options = match read_interface_description_options(r) {
            Ok(o) => o,
            Err(e) => {
                return Err(e);
            },
        };
        Ok(InterfaceDescriptionBlock { link_type, snap_len, options })
    }
}

} // verus!

verus! {

/// The typed option chain of an Interface Description payload follows the raw
/// cursor record for record: when it succeeds, the raw chain succeeds on
/// the same bytes, stops at the same place, and each typed option is the
/// block's interpretation of the raw record in the same position.
pub proof fn lemma_interface_description_options_follow_raw(s: Seq<u8>)
    ensures
        spec_interface_description_options(s) matches Ok(p) ==> {
            &&& crate::options::spec_raw_options(s) is Ok
            &&& crate::options::spec_raw_options(s)->Ok_0.1 == p.1
            &&& crate::options::spec_raw_options(s)->Ok_0.0.len() == p.0.len()
            &&& forall|i: int|
                0 <= i < p.0.len() ==> spec_interface_description_option(
                    (#[trigger] crate::options::spec_raw_options(s)->Ok_0.0[i]).0,
                    crate::options::spec_raw_options(s)->Ok_0.0[i].1,
                ) == Ok::<InterfaceDescriptionOptionV, Error>(p.0[i])
        },
    decreases s.len(),
{
    if s.len() == 0 {
    } else {
        let step = spec_read_option(s);
        if step is Ok {
            let ((code, value), rest) = step->Ok_0;
            assert(rest.len() < s.len());
            if code != 0 {
                lemma_interface_description_options_follow_raw(rest);
                if spec_interface_description_options(s) is Ok && spec_interface_description_option(code, value)
                    is Ok && spec_interface_description_options(rest) is Ok && crate::options::spec_raw_options(
                    rest,
                ) is Ok {
                    let o = spec_interface_description_option(code, value)->Ok_0;
                    let (tail, _fin) = spec_interface_description_options(rest)->Ok_0;
                    let (rtail, _rfin) = crate::options::spec_raw_options(rest)->Ok_0;
                    let whole = seq![o].add(tail);
                    let rwhole = seq![(code, value)].add(rtail);
                    assert forall|i: int| 0 <= i < whole.len() implies spec_interface_description_option(
                        (#[trigger] rwhole[i]).0,
                        rwhole[i].1,
                    ) == Ok::<InterfaceDescriptionOptionV, Error>(whole[i]) by {
                        if i > 0 {
                            assert(rwhole[i] == rtail[i - 1]);
                            assert(whole[i] == tail[i - 1]);
                        }
                    }
                }
            }
        }
    }
}

} // verus!
