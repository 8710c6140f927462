//! Little-endian interpretations of byte sequences.
//!
//! All multi-byte integers in the container format are little-endian; these
//! spec functions give each fixed-width field its numeric value.

use vstd::prelude::*;

verus! {

/// The little-endian 16-bit value of a two-byte sequence.
pub open spec fn spec_le_u16(b: Seq<u8>) -> u16
    recommends
        b.len() == 2,
{
    (b[0] + b[1] * 0x100) as u16
}

/// The little-endian 32-bit value of a four-byte sequence.
pub open spec fn spec_le_u32(b: Seq<u8>) -> u32
    recommends
        b.len() == 4,
{
    (b[0] + b[1] * 0x100 + b[2] * 0x10000 + b[3] * 0x1000000) as u32
}

/// The little-endian 48-bit value of a six-byte sequence, as used by
/// hardware (MAC) address options.
pub open spec fn spec_le_u48(b: Seq<u8>) -> u64
    recommends
        b.len() == 6,
{
    (b[0] + b[1] * 0x100 + b[2] * 0x10000 + b[3] * 0x1000000 + b[4] * 0x100000000
        + b[5] * 0x10000000000) as u64
}

/// The little-endian 64-bit value of an eight-byte sequence.
pub open spec fn spec_le_u64(b: Seq<u8>) -> u64
    recommends
        b.len() == 8,
{
    (b[0] + b[1] * 0x100 + b[2] * 0x10000 + b[3] * 0x1000000 + b[4] * 0x100000000
        + b[5] * 0x10000000000 + b[6] * 0x1000000000000 + b[7] * 0x100000000000000) as u64
}

} // verus!
