//! Binary floating-point numbers by their bit patterns.

use vstd::prelude::*;

verus! {

/// A number in the IEEE 754 binary32 format, by its bits.
#[derive(Clone, Copy, Debug, PartialEq, Eq, Structural)]
pub struct Real32 {
    pub bits: u32,
}

/// A number in the IEEE 754 binary64 format, by its bits.
#[derive(Clone, Copy, Debug, PartialEq, Eq, Structural)]
pub struct Real64 {
    pub bits: u64,
}

impl Real32 {
    /// Positive zero.
    pub open spec fn zero() -> Real32 {
        Real32 { bits: 0 }
    }

    /// Greater than zero: the sign bit is clear, the number is neither zero nor a NaN.
    pub open spec fn is_positive(self) -> bool {
        0 < self.bits <= 0x7f80_0000
    }

    /// Less than zero, or zero of either sign; not a NaN.
    pub open spec fn is_at_most_zero(self) -> bool {
        self.bits == 0 || 0x8000_0000 <= self.bits <= 0xff80_0000
    }

    /// Positive or negative zero.
    pub open spec fn is_zero(self) -> bool {
        self.bits == 0 || self.bits == 0x8000_0000
    }

    /// Whether the number is greater than zero.
    pub fn positive(&self) -> (r: bool)
        ensures
            r == self.is_positive(),
    {
        0 < self.bits && self.bits <= 0x7f80_0000
    }

    /// Whether the number is zero or less.
    pub fn at_most_zero(&self) -> (r: bool)
        ensures
            r == self.is_at_most_zero(),
    {
        self.bits == 0 || 0x8000_0000 <= self.bits && self.bits <= 0xff80_0000
    }

    /// Whether the number is zero, of either sign.
    pub fn zeroed(&self) -> (r: bool)
        ensures
            r == self.is_zero(),
    {
        self.bits == 0 || self.bits == 0x8000_0000
    }
}

impl Real64 {
    /// Positive zero.
    pub open spec fn zero() -> Real64 {
        Real64 { bits: 0 }
    }

    /// Greater than zero: the sign bit is clear, the number is neither zero nor a NaN.
    pub open spec fn is_positive(self) -> bool {
        0 < self.bits <= 0x7ff0_0000_0000_0000
    }

    /// Whether the number is greater than zero.
    pub fn positive(&self) -> (r: bool)
        ensures
            r == self.is_positive(),
    {
        0 < self.bits && self.bits <= 0x7ff0_0000_0000_0000
    }
}

/// In the binary32 format the highest bit is the sign, the next eight are the exponent and the rest
/// is the fraction. A number is zero where exponent and fraction are, and is none where the
/// exponent is the highest and the fraction is not zero.
pub proof fn law_signs_of_binary32(x: Real32)
    ensures
        ({
            let negative = x.bits / 0x8000_0000 == 1;
            let exponent = x.bits / 0x0080_0000 % 256;
            let fraction = x.bits % 0x0080_0000;
            let zero = exponent == 0 && fraction == 0;
            let nan = exponent == 255 && fraction != 0;
            &&& x.is_positive() <==> !negative && !zero && !nan
            &&& x.is_at_most_zero() <==> (negative || zero) && !nan
            &&& x.is_zero() <==> zero
        }),
        Real32::zero().is_zero(),
{
}

/// In the binary64 format the highest bit is the sign, the next eleven are the exponent and the rest
/// is the fraction.
pub proof fn law_signs_of_binary64(x: Real64)
    ensures
        ({
            let negative = x.bits / 0x8000_0000_0000_0000 == 1;
            let exponent = x.bits / 0x0010_0000_0000_0000 % 2048;
            let fraction = x.bits % 0x0010_0000_0000_0000;
            let zero = exponent == 0 && fraction == 0;
            let nan = exponent == 2047 && fraction != 0;
            x.is_positive() <==> !negative && !zero && !nan
        }),
        Real64::zero().bits == 0,
        Real32::zero().bits == 0,
{
}

} // verus!
