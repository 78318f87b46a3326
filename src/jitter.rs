//! How many times an evaluation yields the processor before it runs.
//!
//! The count is the number of trailing zero bits of a 16-bit timestamp,
//! scaled by the delay intensity. It is bounded whatever the timestamp is,
//! zero included, so the yield loop always ends.
use vstd::prelude::*;
use vstd::std_specs::bits::u16_trailing_zeros;

verus! {

/// The timestamp to use where the platform offers no cheap cycle counter.
pub const FALLBACK_STAMP: u16 = 2;

/// The most trailing zero bits a 16-bit timestamp can have (reached at zero).
pub const MAX_STAMP_ZEROS: u64 = 16;

/// The number of yields for the timestamp `stamp` at delay intensity `intensity`.
pub open spec fn rounds_of(stamp: u16, intensity: u32) -> nat {
    (u16_trailing_zeros(stamp) as nat) * (intensity as nat)
}

/// The number of times to yield the processor before an evaluation.
///
/// Zero whenever the intensity is zero, and never more than sixteen times
/// the intensity, for every timestamp.
pub fn jitter_rounds(stamp: u16, intensity: u32) -> (r: u64)
    ensures
        r as nat == rounds_of(stamp, intensity),
        r <= MAX_STAMP_ZEROS * intensity as u64,
        intensity == 0 ==> r == 0,
{
    broadcast use vstd::std_specs::bits::axiom_u16_trailing_zeros;

    let zeros: u32 = stamp.trailing_zeros();
    assert(zeros <= 16);
    assert((zeros as u64) * (intensity as u64) <= 16 * (intensity as u64)) by (nonlinear_arith)
        requires
            zeros <= 16,
    ;
    (zeros as u64) * (intensity as u64)
}

} // verus!
