//! Rounding byte counts up to 32-bit boundaries.
//!
//! Every length-prefixed payload in the container format occupies a multiple
//! of four bytes on the wire, so each declared length must be rounded up
//! before the matching bytes are consumed from the stream.

use vstd::prelude::*;

verus! {

/// The smallest multiple of four that is greater than or equal to `n`.
pub open spec fn spec_align4(n: int) -> int {
    if n % 4 == 0 {
        n
    } else {
        n + (4 - n % 4)
    }
}

/// Rounds a byte count up to the next multiple of four.
pub fn dword_aligned(n: usize) -> (r: usize)
    requires
        n + 3 <= usize::MAX,
    ensures
        r == spec_align4(n as int),
{
    let rem: usize = n % 4;
    if rem == 0 {
        n
    } else {
        n + (4 - rem)
    }
}

/// Rounding up to a 32-bit boundary leaves multiples of four unchanged,
/// moves every other count up by less than four bytes, always lands on a
/// multiple of four, and applying it twice changes nothing further.
pub proof fn lemma_align4_properties(n: int)
    requires
        0 <= n,
    ensures
        n % 4 == 0 ==> spec_align4(n) == n,
        n % 4 != 0 ==> spec_align4(n) > n && spec_align4(n) < n + 4,
        n <= spec_align4(n),
        spec_align4(n) % 4 == 0,
        spec_align4(spec_align4(n)) == spec_align4(n),
{
}

} // verus!
