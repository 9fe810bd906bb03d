//! Single-precision numbers as raw words.
//!
//! A [`Scalar`] holds the 32 bits of an IEEE 754 binary32 number: one sign
//! bit, eight exponent bits, twenty-three fraction bits. The synchronisation
//! rules only move such numbers and ask two questions of them, both of which
//! integer comparisons on the word answer: is it a number at all, and is it
//! at least zero.

use vstd::prelude::*;

verus! {

/// The word whose only set bit is the sign bit: negative zero.
pub const SIGN_BIT: u32 = 0x8000_0000;

/// The word of positive infinity: every exponent bit set, no fraction bit.
pub const INFINITY_BITS: u32 = 0x7F80_0000;

/// The word of the number one.
pub const ONE_BITS: u32 = 0x3F80_0000;

/// A binary32 number, held as its bits.
#[derive(Clone, Copy, Debug, PartialEq, Eq, Structural)]
pub struct Scalar {
    pub bits: u32,
}

impl Scalar {
    /// The word with its sign bit cleared.
    pub open spec fn magnitude(self) -> int {
        if self.bits >= SIGN_BIT {
            self.bits - SIGN_BIT
        } else {
            self.bits as int
        }
    }

    /// Not a number: every exponent bit set and some fraction bit set.
    pub open spec fn is_nan_spec(self) -> bool {
        self.magnitude() > INFINITY_BITS
    }

    /// The number compares as at least zero. Both zeros and positive infinity
    /// do; no negative number and nothing that is not a number does.
    pub open spec fn is_non_negative_spec(self) -> bool {
        self.bits <= INFINITY_BITS || self.bits == SIGN_BIT
    }

    /// A number that is neither infinite nor not a number.
    pub open spec fn is_finite_spec(self) -> bool {
        self.magnitude() < INFINITY_BITS
    }

    pub fn from_bits(bits: u32) -> (s: Scalar)
        ensures
            s.bits == bits,
    {
        Scalar { bits }
    }

    pub fn to_bits(self) -> (bits: u32)
        ensures
            bits == self.bits,
    {
        self.bits
    }

    /// Positive zero.
    pub fn zero() -> (s: Scalar)
        ensures
            s.bits == 0,
    {
        Scalar { bits: 0 }
    }

    /// The number one.
    pub fn one() -> (s: Scalar)
        ensures
            s.bits == ONE_BITS,
    {
        Scalar { bits: ONE_BITS }
    }

    #[verifier::when_used_as_spec(is_nan_spec)]
    pub fn is_nan(self) -> (r: bool)
        ensures
            r == self.is_nan_spec(),
    {
        if self.bits >= SIGN_BIT {
            self.bits - SIGN_BIT > INFINITY_BITS
        } else {
            self.bits > INFINITY_BITS
        }
    }

    #[verifier::when_used_as_spec(is_non_negative_spec)]
    pub fn is_non_negative(self) -> (r: bool)
        ensures
            r == self.is_non_negative_spec(),
    {
        self.bits <= INFINITY_BITS || self.bits == SIGN_BIT
    }

    #[verifier::when_used_as_spec(is_finite_spec)]
    pub fn is_finite(self) -> (r: bool)
        ensures
            r == self.is_finite_spec(),
    {
        if self.bits >= SIGN_BIT {
            self.bits - SIGN_BIT < INFINITY_BITS
        } else {
            self.bits < INFINITY_BITS
        }
    }
}

/// A number that is at least zero is a number, and its sign bit is clear
/// unless it is negative zero.
pub proof fn lemma_non_negative_is_number(s: Scalar)
    requires
        s.is_non_negative_spec(),
    ensures
        !s.is_nan_spec(),
        s.bits < SIGN_BIT || s.magnitude() == 0,
{
}

} // verus!
