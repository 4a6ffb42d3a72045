//! Single-precision values held by their bit patterns.

use vstd::prelude::*;

verus! {

/// The bit pattern of `1.0`.
pub const ONE_BITS: u32 = 0x3f80_0000;

/// An IEEE 754 binary32 value, held by its bit pattern.
///
/// The derived `==` compares bit patterns. Numeric equality, under which
/// `+0.0` equals `-0.0` and a NaN equals nothing, is [`Binary32::same_value`].
#[derive(Clone, Copy, Debug, PartialEq, Eq, Structural)]
pub struct Binary32 {
    pub bits: u32,
}

impl Binary32 {
    /// The eight exponent bits, as a number in `0..=255`.
    pub open spec fn exponent_field(self) -> int {
        (self.bits as int / 0x80_0000) % 0x100
    }

    /// The twenty-three fraction bits.
    pub open spec fn fraction_field(self) -> int {
        self.bits as int % 0x80_0000
    }

    /// Not a number: the exponent bits are all set and the fraction is not
    /// zero.
    pub open spec fn spec_is_nan(self) -> bool {
        self.exponent_field() == 0xff && self.fraction_field() != 0
    }

    /// Neither an infinity nor a NaN: the exponent bits are not all set.
    pub open spec fn spec_is_finite(self) -> bool {
        self.exponent_field() != 0xff
    }

    /// Positive or negative zero: every bit but the sign is clear.
    pub open spec fn spec_is_zero(self) -> bool {
        self.bits as int % 0x8000_0000 == 0
    }

    /// A value that can serve as a unit's scale: finite and not zero.
    pub open spec fn spec_is_scale(self) -> bool {
        self.spec_is_finite() && !self.spec_is_zero()
    }

    /// Numeric equality as IEEE 754 defines it.
    pub open spec fn spec_same_value(self, other: Binary32) -> bool {
        &&& !self.spec_is_nan()
        &&& !other.spec_is_nan()
        &&& (self.bits == other.bits || (self.spec_is_zero() && other.spec_is_zero()))
    }

    /// The value `1.0`.
    pub open spec fn one() -> Binary32 {
        Binary32 { bits: ONE_BITS }
    }

    /// The value with the bit pattern `bits`.
    pub fn from_bits(bits: u32) -> (value: Binary32)
        ensures
            value.bits == bits,
    {
        Binary32 { bits }
    }

    /// The bit pattern of the value.
    pub fn to_bits(self) -> (bits: u32)
        ensures
            bits == self.bits,
    {
        self.bits
    }

    #[verifier::when_used_as_spec(spec_is_nan)]
    pub fn is_nan(self) -> (b: bool)
        ensures
            b == self.spec_is_nan(),
    {
        (self.bits / 0x80_0000) % 0x100 == 0xff && self.bits % 0x80_0000 != 0
    }

    #[verifier::when_used_as_spec(spec_is_finite)]
    pub fn is_finite(self) -> (b: bool)
        ensures
            b == self.spec_is_finite(),
    {
        (self.bits / 0x80_0000) % 0x100 != 0xff
    }

    #[verifier::when_used_as_spec(spec_is_zero)]
    pub fn is_zero(self) -> (b: bool)
        ensures
            b == self.spec_is_zero(),
    {
        self.bits % 0x8000_0000 == 0
    }

    #[verifier::when_used_as_spec(spec_is_scale)]
    pub fn is_scale(self) -> (b: bool)
        ensures
            b == self.spec_is_scale(),
    {
        self.is_finite() && !self.is_zero()
    }

    #[verifier::when_used_as_spec(spec_same_value)]
    pub fn same_value(self, other: Binary32) -> (b: bool)
        ensures
            b == self.spec_same_value(other),
    {
        !self.is_nan() && !other.is_nan() && (self.bits == other.bits || (self.is_zero()
            && other.is_zero()))
    }
}

/// Among scales, numeric equality is equality of bit patterns.
pub proof fn lemma_scales_equal_by_bits(a: Binary32, b: Binary32)
    requires
        a.is_scale(),
        b.is_scale(),
    ensures
        a.same_value(b) <==> a == b,
{
}

} // verus!
