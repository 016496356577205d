//! A 64-bit binary floating-point number, held as its IEEE 754 bit pattern.

use vstd::prelude::*;

verus! {

/// The sign bit of a bit pattern.
pub const SIGN_MASK: u64 = 0x8000_0000_0000_0000;

/// The eleven exponent bits of a bit pattern.
pub const EXPONENT_MASK: u64 = 0x7ff0_0000_0000_0000;

/// The fifty-two fraction bits of a bit pattern.
pub const FRACTION_MASK: u64 = 0x000f_ffff_ffff_ffff;

/// A double-precision number. The library never computes with it: it stores it, hands it
/// back and compares it, and for that the bit pattern is all it needs.
#[derive(Debug, Clone, Copy)]
pub struct Double {
    pub bits: u64,
}

impl Double {
    /// A bit pattern is not a number when its exponent is all ones and its fraction is not
    /// zero.
    pub open spec fn spec_is_nan(self) -> bool {
        self.bits & EXPONENT_MASK == EXPONENT_MASK && self.bits & FRACTION_MASK != 0
    }

    /// Positive and negative zero: every bit but the sign is clear.
    pub open spec fn spec_is_zero(self) -> bool {
        self.bits & !SIGN_MASK == 0
    }

    /// Equality of the two numbers as IEEE 754 defines it: nothing equals a NaN, the two
    /// zeros equal each other, and any other two numbers are equal when their bits are.
    pub open spec fn spec_eq(self, other: Double) -> bool {
        &&& !self.spec_is_nan()
        &&& !other.spec_is_nan()
        &&& (self.bits == other.bits || (self.spec_is_zero() && other.spec_is_zero()))
    }

    /// The number with the given bit pattern.
    pub fn from_bits(bits: u64) -> (d: Double)
        ensures
            d.bits == bits,
    {
        Double { bits }
    }

    /// The bit pattern of the number.
    pub fn to_bits(self) -> (bits: u64)
        ensures
            bits == self.bits,
    {
        self.bits
    }

    /// Whether the bit pattern is a NaN.
    #[verifier::when_used_as_spec(spec_is_nan)]
    pub fn is_nan(self) -> (r: bool)
        ensures
            r == self.spec_is_nan(),
    {
        self.bits & EXPONENT_MASK == EXPONENT_MASK && self.bits & FRACTION_MASK != 0
    }
}

impl PartialEq for Double {
    fn eq(&self, other: &Double) -> (r: bool) {
        if self.is_nan() || other.is_nan() {
            false
        } else if self.bits == other.bits {
            true
        } else {
            self.bits & !SIGN_MASK == 0 && other.bits & !SIGN_MASK == 0
        }
    }
}

impl vstd::std_specs::cmp::PartialEqSpecImpl for Double {
    open spec fn obeys_eq_spec() -> bool {
        true
    }

    open spec fn eq_spec(&self, other: &Double) -> bool {
        self.spec_eq(*other)
    }
}

impl Default for Double {
    /// Positive zero.
    fn default() -> (d: Double)
        ensures
            d.bits == 0,
    {
        Double { bits: 0 }
    }
}

/// `==` on [`Double`] is symmetric, and reflexive on everything but a NaN.
pub proof fn lemma_double_eq(a: Double, b: Double)
    ensures
        a.spec_eq(b) == b.spec_eq(a),
        a.spec_eq(a) == !a.spec_is_nan(),
{
}

} // verus!
