//! The Interface Statistics block (type 5): interface id, timestamp, and
//! counter-valued options.

use vstd::prelude::*;

use crate::bytes::spec_le_u32;
use crate::bytes::spec_le_u64;
use crate::error::Error;
use crate::error::FormatError;
use crate::options::read_option;
use crate::options::spec_read_option;
use crate::reader::ByteReader;
use crate::text::string_from_utf8;
use crate::text::utf8_decode;

verus! {

/// One decoded option of an Interface Statistics block.
#[derive(Debug, Clone, PartialEq)]
pub enum InterfaceStatisticsOption {
    /// Comment associated with the current block (code 1).
    Comment(String),
    /// Time when capture started (code 2).
    StartTime(u64),
    /// Time when capture ended (code 3).
    EndTime(u64),
    /// Number of packets received from the physical interface (code 4).
    Received(u64),
    /// Number of packets dropped by the interface for lack of resources
    /// (code 5).
    Dropped(u64),
    /// Number of packets accepted by the filter (code 6).
    FilterAccepted(u64),
    /// Number of packets dropped by the operating system (code 7).
    OSDropped(u64),
    /// Number of packets delivered to the user; can differ from accepted
    /// minus dropped while packets sit in OS buffers (code 8).
    Delivered(u64),
}

/// The mathematical value of an Interface Statistics option.
pub enum InterfaceStatisticsOptionV {
    Comment(Seq<char>),
    StartTime(u64),
    EndTime(u64),
    Received(u64),
    Dropped(u64),
    FilterAccepted(u64),
    OSDropped(u64),
    Delivered(u64),
}

impl View for InterfaceStatisticsOption {
    type V = InterfaceStatisticsOptionV;

    open spec fn view(&self) -> InterfaceStatisticsOptionV {
        match self {
            InterfaceStatisticsOption::Comment(s) => InterfaceStatisticsOptionV::Comment(s@),
            InterfaceStatisticsOption::StartTime(v) => InterfaceStatisticsOptionV::StartTime(*v),
            InterfaceStatisticsOption::EndTime(v) => InterfaceStatisticsOptionV::EndTime(*v),
            InterfaceStatisticsOption::Received(v) => InterfaceStatisticsOptionV::Received(*v),
            InterfaceStatisticsOption::Dropped(v) => InterfaceStatisticsOptionV::Dropped(*v),
            InterfaceStatisticsOption::FilterAccepted(v) => {
                InterfaceStatisticsOptionV::FilterAccepted(*v)
            },
            InterfaceStatisticsOption::OSDropped(v) => InterfaceStatisticsOptionV::OSDropped(*v),
            InterfaceStatisticsOption::Delivered(v) => InterfaceStatisticsOptionV::Delivered(*v),
        }
    }
}

impl DeepView for InterfaceStatisticsOption {
    type V = InterfaceStatisticsOptionV;

    open spec fn deep_view(&self) -> InterfaceStatisticsOptionV {
        self.view()
    }
}

/// A decoded Interface Statistics block.
#[derive(Debug, Clone, PartialEq)]
pub struct InterfaceStatisticsBlock {
    pub interface_id: u32,
    pub timestamp: u64,
    pub options: Vec<InterfaceStatisticsOption>,
}

/// The mathematical value of an Interface Statistics block.
pub struct InterfaceStatisticsBlockV {
    pub interface_id: u32,
    pub timestamp: u64,
    pub options: Seq<InterfaceStatisticsOptionV>,
}

impl View for InterfaceStatisticsBlock {
    type V = InterfaceStatisticsBlockV;

    open spec fn view(&self) -> InterfaceStatisticsBlockV {
        InterfaceStatisticsBlockV {
            interface_id: self.interface_id,
            timestamp: self.timestamp,
            options: self.options.deep_view(),
        }
    }
}

/// How an Interface Statistics decoder interprets one raw option record:
/// code 1 is the string-valued comment, codes 2 through 8 hold a 64-bit
/// little-endian counter; any other code is unknown. A counter value
/// shorter than eight bytes is a short read.
pub open spec fn spec_interface_statistics_option(code: u16, v: Seq<u8>) -> Result<
    InterfaceStatisticsOptionV,
    Error,
> {
    if code == 1 {
        match utf8_decode(v) {
            Some(text) => Ok(InterfaceStatisticsOptionV::Comment(text)),
            None => Err(Error::FormatError(FormatError::Utf8Error)),
        }
    } else if 2 <= code <= 8 {
        if v.len() < 8 {
            Err(Error::Io)
        } else {
            let value = spec_le_u64(v.take(8));
            Ok(
                if code == 2 {
                    InterfaceStatisticsOptionV::StartTime(value)
                } else if code == 3 {
                    InterfaceStatisticsOptionV::EndTime(value)
                } else if code == 4 {
                    InterfaceStatisticsOptionV::Received(value)
                } else if code == 5 {
                    InterfaceStatisticsOptionV::Dropped(value)
                } else if code == 6 {
                    InterfaceStatisticsOptionV::FilterAccepted(value)
                } else if code == 7 {
                    InterfaceStatisticsOptionV::OSDropped(value)
                } else {
                    InterfaceStatisticsOptionV::Delivered(value)
                },
            )
        }
    } else {
        Err(Error::FormatError(FormatError::UnknownOption))
    }
}

/// The typed option chain of an Interface Statistics payload.
pub open spec fn spec_interface_statistics_options(s: Seq<u8>) -> Result<
    (Seq<InterfaceStatisticsOptionV>, Seq<u8>),
    Error,
>
    decreases s.len(),
{
    if s.len() == 0 {
        Ok((Seq::empty(), s))
    } else {
        match spec_read_option(s) {
            Err(e) => Err(e),
            Ok(((code, value), rest)) => {
                if code == 0 {
                    Ok((Seq::empty(), rest))
                } else {
                    match spec_interface_statistics_option(code, value) {
                        Err(e) => Err(e),
                        Ok(o) => match spec_interface_statistics_options(rest) {
                            Err(e) => Err(e),
                            Ok((tail, fin)) => Ok((seq![o].add(tail), fin)),
                        },
                    }
                }
            },
        }
    }
}

/// What decoding an Interface Statistics block out of payload `s` yields:
/// interface id and timestamp, then the option chain.
pub open spec fn spec_interface_statistics(s: Seq<u8>) -> Result<
    (InterfaceStatisticsBlockV, Seq<u8>),
    Error,
> {
    if s.len() < 12 {
        Err(Error::Io)
    } else {
        match spec_interface_statistics_options(s.skip(12)) {
            Err(e) => Err(e),
            Ok((opts, rest)) => Ok(
                (
                    InterfaceStatisticsBlockV {
                        interface_id: spec_le_u32(s.take(4)),
                        timestamp: spec_le_u64(s.subrange(4, 12)),
                        options: opts,
                    },
                    rest,
                ),
            ),
        }
    }
}

/// Reads the option chain of an Interface Statistics payload, mapping each
/// record to its typed option as it is read.
fn read_interface_statistics_options(r: &mut ByteReader) -> (res: Result<
    Vec<InterfaceStatisticsOption>,
    Error,
>)
    ensures
        final(r).bytes() == old(r).bytes(),
        match res {
            Ok(opts) => spec_interface_statistics_options(old(r).remaining()) == Ok::<_, Error>(
                (opts.deep_view(), final(r).remaining()),
            ),
            Err(e) => spec_interface_statistics_options(old(r).remaining()) == Err::<
                (Seq<InterfaceStatisticsOptionV>, Seq<u8>),
                Error,
            >(e),
        },
    decreases r.remaining().len(),
{
    let ghost s = r.remaining();
    if r.eof() {
        let empty: Vec<InterfaceStatisticsOption> = Vec::new();
        proof {
            assert(empty.deep_view() =~= Seq::<InterfaceStatisticsOptionV>::empty());
        }
        return Ok(empty);
    }
    let (code, data) = match read_option(r) {
        Ok(p) => p,
        Err(e) => {
            return Err(e);
        },
    };
    let ghost dv = data@;
    if code == 0 {
        let empty: Vec<InterfaceStatisticsOption> = Vec::new();
        proof {
            assert(empty.deep_view() =~= Seq::<InterfaceStatisticsOptionV>::empty());
        }
        return Ok(empty);
    }
    let opt: InterfaceStatisticsOption = if code == 1 {
        match string_from_utf8(data) {
            Some(text) => InterfaceStatisticsOption::Comment(text),
            None => {
                return Err(Error::FormatError(FormatError::Utf8Error));
            },
        }
    } else if 2 <= code && code <= 8 {
        if data.len() < 8 {
            return Err(Error::Io);
        }
        let value = data[0] as u64 + data[1] as u64 * 0x100 + data[2] as u64 * 0x10000
            + data[3] as u64 * 0x1000000 + data[4] as u64 * 0x100000000 + data[5] as u64
            * 0x10000000000 + data[6] as u64 * 0x1000000000000 + data[7] as u64
            * 0x100000000000000;
        proof {
            assert(value == spec_le_u64(dv.take(8)));
        }
        if code == 2 {
            InterfaceStatisticsOption::StartTime(value)
        } else if code == 3 {
            InterfaceStatisticsOption::EndTime(value)
        } else if code == 4 {
            InterfaceStatisticsOption::Received(value)
        } else if code == 5 {
            InterfaceStatisticsOption::Dropped(value)
        } else if code == 6 {
            InterfaceStatisticsOption::FilterAccepted(value)
        } else if code == 7 {
            InterfaceStatisticsOption::OSDropped(value)
        } else {
            InterfaceStatisticsOption::Delivered(value)
        }
    } else {
        return Err(Error::FormatError(FormatError::UnknownOption));
    };
    proof {
        assert(spec_interface_statistics_option(code, dv) == Ok::<
            InterfaceStatisticsOptionV,
            Error,
        >(opt@));
        assert(r.remaining().len() < s.len());
    }
    let mut tail = match read_interface_statistics_options(r) {
        Ok(t) => t,
        Err(e) => {
            return Err(e);
        },
    };
    let ghost tv = tail.deep_view();
    tail.insert(0, opt);
    proof {
        assert(tail.deep_view() =~= seq![opt@].add(tv));
    }
    Ok(tail)
}

impl InterfaceStatisticsBlock {
    /// Decodes an Interface Statistics block from the payload bytes handed
    /// out by the framer: interface id and timestamp, then the option chain.
    pub fn read(r: &mut ByteReader) -> (res: Result<InterfaceStatisticsBlock, Error>)
        ensures
            final(r).bytes() == old(r).bytes(),
            match res {
                Ok(b) => spec_interface_statistics(old(r).remaining()) == Ok::<_, Error>(
                    (b@, final(r).remaining()),
                ),
                Err(e) => spec_interface_statistics(old(r).remaining()) == Err::<
                    (InterfaceStatisticsBlockV, Seq<u8>),
                    Error,
                >(e),
            },
    {
        let ghost s = old(r).remaining();
        let interface_id = match r.read_le_u32() {
            Ok(v) => v,
            Err(e) => {
                return Err(e);
            },
        };
        let timestamp = match r.read_le_u64() {
            Ok(v) => v,
            Err(e) => {
                return Err(e);
            },
        };
        proof {
            assert(s.skip(4).take(8) =~= s.subrange(4, 12));
            assert(s.skip(4).skip(8) =~= s.skip(12));
        }
        let options = match read_interface_statistics_options(r) {
            Ok(o) => o,
            Err(e) => {
                return Err(e);
            },
        };
        Ok(InterfaceStatisticsBlock { interface_id, timestamp, options })
    }
}

} // verus!

verus! {

/// The typed option chain of an Interface Statistics payload follows the raw
/// cursor record for record: when it succeeds, the raw chain succeeds on
/// the same bytes, stops at the same place, and each typed option is the
/// block's interpretation of the raw record in the same position.
pub proof fn lemma_interface_statistics_options_follow_raw(s: Seq<u8>)
    ensures
        spec_interface_statistics_options(s) matches Ok(p) ==> {
            &&& crate::options::spec_raw_options(s) is Ok
            &&& crate::options::spec_raw_options(s)->Ok_0.1 == p.1
            &&& crate::options::spec_raw_options(s)->Ok_0.0.len() == p.0.len()
            &&& forall|i: int|
                0 <= i < p.0.len() ==> spec_interface_statistics_option(
                    (#[trigger] crate::options::spec_raw_options(s)->Ok_0.0[i]).0,
                    crate::options::spec_raw_options(s)->Ok_0.0[i].1,
                ) == Ok::<InterfaceStatisticsOptionV, Error>(p.0[i])
        },
    decreases s.len(),
{
    if s.len() == 0 {
    } else {
        let step = spec_read_option(s);
        if step is Ok {
            let ((code, value), rest) = step->Ok_0;
            assert(rest.len() < s.len());
            if code != 0 {
                lemma_interface_statistics_options_follow_raw(rest);
                if spec_interface_statistics_options(s) is Ok && spec_interface_statistics_option(code, value)
                    is Ok && spec_interface_statistics_options(rest) is Ok && crate::options::spec_raw_options(
                    rest,
                ) is Ok {
                    let o = spec_interface_statistics_option(code, value)->Ok_0;
                    let (tail, _fin) = spec_interface_statistics_options(rest)->Ok_0;
                    let (rtail, _rfin) = crate::options::spec_raw_options(rest)->Ok_0;
                    let whole = seq![o].add(tail);
                    let rwhole = seq![(code, value)].add(rtail);
                    assert forall|i: int| 0 <= i < whole.len() implies spec_interface_statistics_option(
                        (#[trigger] rwhole[i]).0,
                        rwhole[i].1,
                    ) == Ok::<InterfaceStatisticsOptionV, Error>(whole[i]) by {
                        if i > 0 {
                            assert(rwhole[i] == rtail[i - 1]);
                            assert(whole[i] == tail[i - 1]);
                        }
                    }
                }
            }
        }
    }
}

} // verus!
