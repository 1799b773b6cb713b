//! Binary floating-point values, held by their bit patterns.
//!
//! The ladder stores ratings as IEEE 754 doubles. Nothing here computes with
//! them; the rules only compare two of them, and that comparison is a
//! comparison of sign and magnitude.

use vstd::prelude::*;

verus! {

/// The bit pattern of positive infinity; a magnitude above it is not a number.
pub const INFINITY_BITS: u64 = 0x7FF0_0000_0000_0000;

/// The weight of the sign bit.
pub const SIGN_BIT: u64 = 0x8000_0000_0000_0000;

/// A double, by its bit pattern (what `f64::to_bits` gives).
#[derive(Debug, Clone, Copy, PartialEq, Eq, Structural)]
pub struct Double {
    pub bits: u64,
}

impl Double {
    /// The pattern without its sign.
    pub open spec fn magnitude(self) -> int {
        if self.bits < SIGN_BIT {
            self.bits as int
        } else {
            self.bits - SIGN_BIT
        }
    }

    /// Whether the pattern encodes no number.
    pub open spec fn is_nan(self) -> bool {
        self.magnitude() > INFINITY_BITS
    }

    /// The place of a number among all numbers: numbers are ordered as their
    /// places are, and both zeros share one place.
    pub open spec fn place(self) -> int {
        if self.bits < SIGN_BIT {
            self.magnitude()
        } else {
            -self.magnitude()
        }
    }

    /// `a > b` of floating-point arithmetic: false when either is not a number.
    pub open spec fn exceeds(self, other: Double) -> bool {
        !self.is_nan() && !other.is_nan() && self.place() > other.place()
    }

    /// `a == b` of floating-point arithmetic: false when either is not a number.
    pub open spec fn equals(self, other: Double) -> bool {
        !self.is_nan() && !other.is_nan() && self.place() == other.place()
    }

    /// Whether the pattern encodes no number.
    pub fn not_a_number(self) -> (r: bool)
        ensures
            r == self.is_nan(),
    {
        let magnitude: u64 = if self.bits < SIGN_BIT {
            self.bits
        } else {
            self.bits - SIGN_BIT
        };
        magnitude > INFINITY_BITS
    }

    /// The place as an integer.
    pub fn to_place(self) -> (r: i64)
        ensures
            r == self.place(),
    {
        if self.bits < SIGN_BIT {
            self.bits as i64
        } else {
            let magnitude: u64 = self.bits - SIGN_BIT;
            -(magnitude as i64)
        }
    }

    /// `a > b` of floating-point arithmetic.
    pub fn greater_than(self, other: Double) -> (r: bool)
        ensures
            r == self.exceeds(other),
    {
        !self.not_a_number() && !other.not_a_number() && self.to_place() > other.to_place()
    }

    /// `a == b` of floating-point arithmetic.
    pub fn equal_to(self, other: Double) -> (r: bool)
        ensures
            r == self.equals(other),
    {
        !self.not_a_number() && !other.not_a_number() && self.to_place() == other.to_place()
    }
}

} // verus!
