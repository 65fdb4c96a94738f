//! Normalizer: maps a raw sample magnitude into the coarse 21-level scale
//! `[0, 20]` used by the normalized-RMS-only mode.

use vstd::prelude::*;

verus! {

/// Largest positive amplitude of a 16-bit signed sample.
pub const MAX_BITS_16: i32 = 32767;

/// Upper end of the normalized scale.
pub const NORMALIZED_MAX: i32 = 20;

/// Clamp `value` to `[0, 32767]`, then integer-divide by `floor(32767 / 20)`.
/// Values below 0 collapse to 0: signed amplitude information is discarded by
/// design in the normalized mode.
pub open spec fn spec_normalize(value: int) -> int {
    let clamped = if value < 0 {
        0
    } else if value > 32767 {
        32767
    } else {
        value
    };
    clamped / (32767int / 20)
}

/// Quantize a raw sample value to an integer in `[0, 20]`: clamp to
/// `[0, 32767]` first, then integer-divide by `floor(32767 / 20)`.
pub fn normalize_16_bit_rms(value: i32) -> (r: i32)
    ensures
        r == spec_normalize(value as int),
        0 <= r <= NORMALIZED_MAX,
{
    let mut v: i32 = value;
    if v < 0 {
        v = 0;
    }
    if v > MAX_BITS_16 {
        v = MAX_BITS_16;
    }
    v / (MAX_BITS_16 / NORMALIZED_MAX)
}

} // verus!
