//! Real-valued settings and probabilities, carried by their IEEE 754 bit patterns.
//!
//! The pipeline's decisions only ever compare such values, and a comparison can
//! be read off the bits: the sign bit and the remaining bits taken as one
//! magnitude order every pair of numbers that are not NaN, and a NaN compares
//! with nothing.

use vstd::prelude::*;

verus! {

/// A single-precision value: `bits` is what `to_bits` gives for it.
#[derive(Clone, Copy, Debug, PartialEq, Eq, Structural)]
pub struct Single {
    pub bits: u32,
}

/// A double-precision value: `bits` is what `to_bits` gives for it.
#[derive(Clone, Copy, Debug, PartialEq, Eq, Structural)]
pub struct Double {
    pub bits: u64,
}

/// Bits of positive infinity; a larger magnitude is a NaN.
pub const INFINITY_BITS: u32 = 0x7f80_0000;

/// The sign bit.
pub const SIGN_BIT: u32 = 0x8000_0000;

impl Single {
    /// Sign and magnitude as one number, or `None` for a NaN. Two values that are
    /// not NaN compare as these numbers do; both zeros are 0.
    pub open spec fn rank(self) -> Option<int> {
        let magnitude = if self.bits >= SIGN_BIT {
            self.bits - SIGN_BIT
        } else {
            self.bits as int
        };
        if magnitude > INFINITY_BITS {
            None
        } else if self.bits >= SIGN_BIT {
            Some(-magnitude)
        } else {
            Some(magnitude)
        }
    }

    /// `self <= other`, false if either is a NaN.
    pub open spec fn le_spec(self, other: Single) -> bool {
        self.rank() is Some && other.rank() is Some && self.rank()->0 <= other.rank()->0
    }

    pub fn le(self, other: Single) -> (r: bool)
        ensures
            r == self.le_spec(other),
    {
        match (self.signed_magnitude(), other.signed_magnitude()) {
            (Some(a), Some(b)) => a <= b,
            _ => false,
        }
    }

    fn signed_magnitude(self) -> (r: Option<i64>)
        ensures
            r is Some <==> self.rank() is Some,
            r matches Some(k) ==> k == self.rank()->0,
    {
        let negative = self.bits >= SIGN_BIT;
        let magnitude: u32 = if negative {
            self.bits - SIGN_BIT
        } else {
            self.bits
        };
        if magnitude > INFINITY_BITS {
            None
        } else if negative {
            Some(-(magnitude as i64))
        } else {
            Some(magnitude as i64)
        }
    }

    /// At least the value with bits `low` and at most the one with bits `high`; a
    /// NaN is in no range.
    pub open spec fn within_spec(self, low: u32, high: u32) -> bool {
        Single { bits: low }.le_spec(self) && self.le_spec(Single { bits: high })
    }

    pub fn within(self, low: u32, high: u32) -> (r: bool)
        ensures
            r == self.within_spec(low, high),
    {
        let low = Single { bits: low };
        let high = Single { bits: high };
        low.le(self) && self.le(high)
    }
}

} // verus!
