//! Audio samples as the library carries them.
//!
//! A sample is an IEEE-754 single-precision number, held by its 32-bit
//! pattern. The library moves samples around and orders their magnitudes, and
//! both can be done on the pattern alone: for two numbers that are not NaN,
//! the one with the larger magnitude has the larger pattern once the sign bit
//! is cleared.

use vstd::prelude::*;

verus! {

/// Mask that clears the sign bit of a single-precision pattern.
pub const MAGNITUDE_MASK: u32 = 0x7FFF_FFFF;

/// Pattern of positive infinity. Magnitudes above it are NaN.
pub const INFINITY_BITS: u32 = 0x7F80_0000;

/// One audio sample: the bit pattern of an IEEE-754 single.
#[derive(Clone, Copy, Debug, PartialEq, Eq, Structural)]
pub struct Sample {
    pub bits: u32,
}

/// The pattern with its sign bit cleared: the pattern of the absolute value.
pub open spec fn magnitude_of(bits: u32) -> u32 {
    bits & MAGNITUDE_MASK
}

/// Whether the pattern stands for NaN.
pub open spec fn is_nan_bits(bits: u32) -> bool {
    magnitude_of(bits) > INFINITY_BITS
}

/// Whether the pattern stands for a number below zero (not `-0.0`, not NaN).
pub open spec fn is_negative_bits(bits: u32) -> bool {
    bits != magnitude_of(bits) && 0 < magnitude_of(bits) <= INFINITY_BITS
}

/// `|sample| > threshold` as IEEE-754 decides it, on bit patterns.
///
/// A comparison with NaN on either side is false. Every number has a
/// magnitude above a negative threshold. Otherwise magnitudes compare as
/// their patterns do.
pub open spec fn louder_than(sample: u32, threshold: u32) -> bool {
    &&& !is_nan_bits(sample)
    &&& !is_nan_bits(threshold)
    &&& (is_negative_bits(threshold) || magnitude_of(sample) > magnitude_of(threshold))
}

impl Sample {
    /// The sample with the given bit pattern.
    pub fn from_bits(bits: u32) -> (sample: Sample)
        ensures
            sample.bits == bits,
    {
        Sample { bits }
    }

    /// The sample's bit pattern.
    pub fn to_bits(self) -> (bits: u32)
        ensures
            bits == self.bits,
    {
        self.bits
    }

    /// The sample `+0.0`, digital silence.
    pub fn silence() -> (sample: Sample)
        ensures
            sample.bits == 0,
    {
        Sample { bits: 0 }
    }

    /// The absolute value of the sample.
    pub fn magnitude(self) -> (abs: Sample)
        ensures
            abs.bits == magnitude_of(self.bits),
    {
        Sample { bits: self.bits & MAGNITUDE_MASK }
    }

    /// Whether the sample is NaN.
    pub fn is_nan(self) -> (nan: bool)
        ensures
            nan == is_nan_bits(self.bits),
    {
        (self.bits & MAGNITUDE_MASK) > INFINITY_BITS
    }

    /// Whether the sample's magnitude is strictly above `threshold`.
    pub fn exceeds(self, threshold: Sample) -> (louder: bool)
        ensures
            louder == louder_than(self.bits, threshold.bits),
    {
        let mag: u32 = self.bits & MAGNITUDE_MASK;
        let limit: u32 = threshold.bits & MAGNITUDE_MASK;
        if mag > INFINITY_BITS || limit > INFINITY_BITS {
            false
        } else if threshold.bits != limit && limit > 0 {
            true
        } else {
            mag > limit
        }
    }
}

/// Loudness depends on the sample's magnitude only: a sample and its negation
/// are equally loud.
pub proof fn lemma_loudness_ignores_sign(sample: u32, threshold: u32)
    ensures
        louder_than(sample ^ 0x8000_0000u32, threshold) == louder_than(sample, threshold),
{
    assert((sample ^ 0x8000_0000u32) & 0x7FFF_FFFFu32 == sample & 0x7FFF_FFFFu32) by (bit_vector);
}

} // verus!
