//! The Section Header block: magic, format version, section length, and
//! string-valued metadata options.

use vstd::prelude::*;

use crate::bytes::spec_le_u16;
use crate::bytes::spec_le_u32;
use crate::bytes::spec_le_u64;
use crate::error::Error;
use crate::error::FormatError;
use crate::options::read_option;
use crate::options::spec_read_option;
use crate::reader::ByteReader;
use crate::text::string_from_utf8;
use crate::text::utf8_decode;

verus! {

/// The magic value every Section Header must carry; any other value means
/// the stream was written with another byte order or is not this format.
pub const SECTION_HEADER_MAGIC: u32 = 0x1A2B3C4D;

/// One decoded option of a Section Header block.
#[derive(Debug, Clone, PartialEq)]
pub enum SectionHeaderOption {
    /// Comment associated with the current block (code 1).
    Comment(String),
    /// Description of the hardware used to create this section (code 2).
    Hardware(String),
    /// Name of the operating system used to create this section (code 3).
    OS(String),
    /// Name of the application used to create this section (code 4).
    UserApplication(String),
}

/// The mathematical value of a Section Header option.
pub enum SectionHeaderOptionV {
    Comment(Seq<char>),
    Hardware(Seq<char>),
    OS(Seq<char>),
    UserApplication(Seq<char>),
}

impl View for SectionHeaderOption {
    type V = SectionHeaderOptionV;

    open spec fn view(&self) -> SectionHeaderOptionV {
        match self {
            SectionHeaderOption::Comment(s) => SectionHeaderOptionV::Comment(s@),
            SectionHeaderOption::Hardware(s) => SectionHeaderOptionV::Hardware(s@),
            SectionHeaderOption::OS(s) => SectionHeaderOptionV::OS(s@),
            SectionHeaderOption::UserApplication(s) => SectionHeaderOptionV::UserApplication(s@),
        }
    }
}

impl DeepView for SectionHeaderOption {
    type V = SectionHeaderOptionV;

    open spec fn deep_view(&self) -> SectionHeaderOptionV {
        self.view()
    }
}

/// A decoded Section Header block.
#[derive(Debug, Clone, PartialEq)]
pub struct SectionHeaderBlock {
    /// Magic number equal to `0x1A2B3C4D`; used to detect sections saved on
    /// systems with a different endianness.
    pub magic: u32,
    pub major_version: u16,
    pub minor_version: u16,
    /// Length in bytes of the following section excluding this block;
    /// `u64::MAX` means the length is unspecified.
    pub section_length: u64,
    pub options: Vec<SectionHeaderOption>,
}

/// The mathematical value of a Section Header block.
pub struct SectionHeaderBlockV {
    pub magic: u32,
    pub major_version: u16,
    pub minor_version: u16,
    pub section_length: u64,
    pub options: Seq<SectionHeaderOptionV>,
}

impl View for SectionHeaderBlock {
    type V = SectionHeaderBlockV;

    open spec fn view(&self) -> SectionHeaderBlockV {
        SectionHeaderBlockV {
            magic: self.magic,
            major_version: self.major_version,
            minor_version: self.minor_version,
            section_length: self.section_length,
            options: self.options.deep_view(),
        }
    }
}

/// How a Section Header decoder interprets one raw option record: codes 1
/// through 4 are the string-valued options, any other code is unknown.
pub open spec fn spec_section_header_option(code: u16, v: Seq<u8>) -> Result<
    SectionHeaderOptionV,
    Error,
> {
    if 1 <= code <= 4 {
        match utf8_decode(v) {
            Some(text) => Ok(
                if code == 1 {
                    SectionHeaderOptionV::Comment(text)
                } else if code == 2 {
                    SectionHeaderOptionV::Hardware(text)
                } else if code == 3 {
                    SectionHeaderOptionV::OS(text)
                } else {
                    SectionHeaderOptionV::UserApplication(text)
                },
            ),
            None => Err(Error::FormatError(FormatError::Utf8Error)),
        }
    } else {
        Err(Error::FormatError(FormatError::UnknownOption))
    }
}

/// The typed option chain of a Section Header payload: every record before
/// the terminator mapped by `spec_section_header_option`, with the bytes
/// left after the chain stopped.
pub open spec fn spec_section_header_options(s: Seq<u8>) -> Result<
    (Seq<SectionHeaderOptionV>, Seq<u8>),
    Error,
>
    decreases s.len(),
{
    if s.len() == 0 {
        Ok((Seq::empty(), s))
    } else {
        match spec_read_option(s) {
            Err(e) => Err(e),
            Ok(((code, value), rest)) => {
                if code == 0 {
                    Ok((Seq::empty(), rest))
                } else {
                    match spec_section_header_option(code, value) {
                        Err(e) => Err(e),
                        Ok(o) => match spec_section_header_options(rest) {
                            Err(e) => Err(e),
                            Ok((tail, fin)) => Ok((seq![o].add(tail), fin)),
                        },
                    }
                }
            },
        }
    }
}

/// What decoding a Section Header block out of payload `s` yields: the
/// typed block value and the bytes left unread, or the error decoding
/// stops with.
pub open spec fn spec_section_header(s: Seq<u8>) -> Result<(SectionHeaderBlockV, Seq<u8>), Error> {
    if s.len() < 4 {
        Err(Error::Io)
    } else if spec_le_u32(s.take(4)) != SECTION_HEADER_MAGIC {
        Err(Error::FormatError(FormatError::UnsupportedEndianness))
    } else if s.len() < 16 {
        Err(Error::Io)
    } else {
        match spec_section_header_options(s.skip(16)) {
            Err(e) => Err(e),
            Ok((opts, rest)) => Ok(
                (
                    SectionHeaderBlockV {
                        magic: spec_le_u32(s.take(4)),
                        major_version: spec_le_u16(s.subrange(4, 6)),
                        minor_version: spec_le_u16(s.subrange(6, 8)),
                        section_length: spec_le_u64(s.subrange(8, 16)),
                        options: opts,
                    },
                    rest,
                ),
            ),
        }
    }
}

/// Reads the option chain of a Section Header payload, mapping each record
/// to its typed option as it is read.
fn read_section_header_options(r: &mut ByteReader) -> (res: Result<Vec<SectionHeaderOption>, Error>)
    ensures
        final(r).bytes() == old(r).bytes(),
        match res {
            Ok(opts) => spec_section_header_options(old(r).remaining()) == Ok::<_, Error>(
                (opts.deep_view(), final(r).remaining()),
            ),
            Err(e) => spec_section_header_options(old(r).remaining()) == Err::<
                (Seq<SectionHeaderOptionV>, Seq<u8>),
                Error,
            >(e),
        },
    decreases r.remaining().len(),
{
    let ghost s = r.remaining();
    if r.eof() {
        let empty: Vec<SectionHeaderOption> = Vec::new();
        proof {
            assert(empty.deep_view() =~= Seq::<SectionHeaderOptionV>::empty());
        }
        return Ok(empty);
    }
    let (code, data) = match read_option(r) {
        Ok(p) => p,
        Err(e) => {
            return Err(e);
        },
    };
    let ghost dv = data@;
    if code == 0 {
        let empty: Vec<SectionHeaderOption> = Vec::new();
        proof {
            assert(empty.deep_view() =~= Seq::<SectionHeaderOptionV>::empty());
        }
        return Ok(empty);
    }
    let opt: SectionHeaderOption = if 1 <= code && code <= 4 {
        match string_from_utf8(data) {
            Some(text) => {
                if code == 1 {
                    SectionHeaderOption::Comment(text)
                } else if code == 2 {
                    SectionHeaderOption::Hardware(text)
                } else if code == 3 {
                    SectionHeaderOption::OS(text)
                } else {
                    SectionHeaderOption::UserApplication(text)
                }
            },
            None => {
                return Err(Error::FormatError(FormatError::Utf8Error));
            },
        }
    } else {
        return Err(Error::FormatError(FormatError::UnknownOption));
    };
    proof {
        assert(spec_section_header_option(code, dv) == Ok::<SectionHeaderOptionV, Error>(opt@));
        assert(r.remaining().len() < s.len());
    }
    let mut tail = match read_section_header_options(r) {
        Ok(t) => t,
        Err(e) => {
            return Err(e);
        },
    };
    let ghost tv = tail.deep_view();
    tail.insert(0, opt);
    proof {
        assert(tail.deep_view() =~= seq![opt@].add(tv));
    }
    Ok(tail)
}

impl SectionHeaderBlock {
    /// Decodes a Section Header block from the payload bytes handed out by
    /// the framer: magic, versions, section length, then the option chain.
    pub fn read(r: &mut ByteReader) -> (res: Result<SectionHeaderBlock, Error>)
        ensures
            final(r).bytes() == old(r).bytes(),
            match res {
                Ok(b) => spec_section_header(old(r).remaining()) == Ok::<_, Error>(
                    (b@, final(r).remaining()),
                ),
                Err(e) => spec_section_header(old(r).remaining()) == Err::<
                    (SectionHeaderBlockV, Seq<u8>),
                    Error,
                >(e),
            },
    {
        let ghost s = old(r).remaining();
        let magic = match r.read_le_u32() {
            Ok(v) => v,
            Err(e) => {
                return Err(e);
            },
        };
        if magic != SECTION_HEADER_MAGIC {
            return Err(Error::FormatError(FormatError::UnsupportedEndianness));
        }
        let major_version = match r.read_le_u16() {
            Ok(v) => v,
            Err(e) => {
                return Err(e);
            },
        };
        proof {
            assert(s.skip(4).take(2) =~= s.subrange(4, 6));
            assert(s.skip(4).skip(2) =~= s.skip(6));
        }
        let minor_version = match r.read_le_u16() {
            Ok(v) => v,
            Err(e) => {
                return Err(e);
            },
        };
        proof {
            assert(s.skip(6).take(2) =~= s.subrange(6, 8));
            assert(s.skip(6).skip(2) =~= s.skip(8));
        }
        let section_length = match r.read_le_u64() {
            Ok(v) => v,
            Err(e) => {
                return Err(e);
            },
        };
        proof {
            assert(s.skip(8).take(8) =~= s.subrange(8, 16));
            assert(s.skip(8).skip(8) =~= s.skip(16));
        }
        let options = match read_section_header_options(r) {
            Ok(o) => o,
            Err(e) => {
                return Err(e);
            },
        };
        Ok(
            SectionHeaderBlock {
                magic,
                major_version,
                minor_version,
                section_length,
                options,
            },
        )
    }
}

} // verus!

verus! {

/// The typed option chain of a Section Header payload follows the raw
/// cursor record for record: when it succeeds, the raw chain succeeds on
/// the same bytes, stops at the same place, and each typed option is the
/// block's interpretation of the raw record in the same position.
pub proof fn lemma_section_header_options_follow_raw(s: Seq<u8>)
    ensures
        spec_section_header_options(s) matches Ok(p) ==> {
            &&& crate::options::spec_raw_options(s) is Ok
            &&& crate::options::spec_raw_options(s)->Ok_0.1 == p.1
            &&& crate::options::spec_raw_options(s)->Ok_0.0.len() == p.0.len()
            &&& forall|i: int|
                0 <= i < p.0.len() ==> spec_section_header_option(
                    (#[trigger] crate::options::spec_raw_options(s)->Ok_0.0[i]).0,
                    crate::options::spec_raw_options(s)->Ok_0.0[i].1,
                ) == Ok::<SectionHeaderOptionV, Error>(p.0[i])
        },
    decreases s.len(),
{
    if s.len() == 0 {
    } else {
        let step = spec_read_option(s);
        if step is Ok {
            let ((code, value), rest) = step->Ok_0;
            assert(rest.len() < s.len());
            if code != 0 {
                lemma_section_header_options_follow_raw(rest);
                if spec_section_header_options(s) is Ok && spec_section_header_option(code, value)
                    is Ok && spec_section_header_options(rest) is Ok && crate::options::spec_raw_options(
                    rest,
                ) is Ok {
                    let o = spec_section_header_option(code, value)->Ok_0;
                    let (tail, _fin) = spec_section_header_options(rest)->Ok_0;
                    let (rtail, _rfin) = crate::options::spec_raw_options(rest)->Ok_0;
                    let whole = seq![o].add(tail);
                    let rwhole = seq![(code, value)].add(rtail);
                    assert forall|i: int| 0 <= i < whole.len() implies spec_section_header_option(
                        (#[trigger] rwhole[i]).0,
                        rwhole[i].1,
                    ) == Ok::<SectionHeaderOptionV, Error>(whole[i]) by {
                        if i > 0 {
                            assert(rwhole[i] == rtail[i - 1]);
                            assert(whole[i] == tail[i - 1]);
                        }
                    }
                }
            }
        }
    }
}

} // verus!
