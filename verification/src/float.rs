//! Binary64 numbers as bit patterns, with the decisions that need no rounding.

use vstd::prelude::*;

verus! {

/// The weight of the sign bit of a binary64 bit pattern.
pub const SIGN: u64 = 0x8000_0000_0000_0000;

/// The magnitude bits of positive infinity; any larger magnitude is not a number.
pub const INFINITY: u64 = 0x7FF0_0000_0000_0000;

/// A 64-bit floating-point number, held as its IEEE 754 binary64 bit pattern.
#[derive(Clone, Copy, PartialEq, Eq, Structural, Debug)]
pub struct Float {
    pub bits: u64,
}

impl Float {
    /// The pattern without its sign bit.
    pub open spec fn magnitude(self) -> int {
        self.bits as int % (SIGN as int)
    }

    /// Whether the sign bit is set.
    pub open spec fn negative(self) -> bool {
        self.bits >= SIGN
    }

    /// Whether the pattern encodes no number at all.
    pub open spec fn nan(self) -> bool {
        self.magnitude() > INFINITY
    }

    /// Whether the pattern is positive or negative zero.
    pub open spec fn zero(self) -> bool {
        self.magnitude() == 0
    }

    /// Numeric equality: zeros of either sign are equal, and what is not a number equals nothing.
    pub open spec fn same(self, other: Float) -> bool {
        !self.nan() && !other.nan() && (self.bits == other.bits || (self.zero() && other.zero()))
    }

    /// Numeric order: false whenever either side is not a number.
    pub open spec fn below(self, other: Float) -> bool {
        if self.nan() || other.nan() || (self.zero() && other.zero()) {
            false
        } else if self.negative() != other.negative() {
            self.negative()
        } else if self.negative() {
            self.magnitude() > other.magnitude()
        } else {
            self.magnitude() < other.magnitude()
        }
    }

    /// The pattern with its sign bit flipped.
    pub open spec fn opposite(self) -> Float {
        if self.negative() {
            Float { bits: (self.bits - SIGN) as u64 }
        } else {
            Float { bits: (self.bits + SIGN) as u64 }
        }
    }

    /// Whether the number is no number at all.
    pub fn is_nan(self) -> (answer: bool)
        ensures
            answer == self.nan(),
    {
        self.bits % SIGN > INFINITY
    }

    /// Whether the number is zero, of either sign.
    pub fn is_zero(self) -> (answer: bool)
        ensures
            answer == self.zero(),
    {
        self.bits % SIGN == 0
    }

    /// Whether two numbers are equal.
    pub fn equals(self, other: Float) -> (answer: bool)
        ensures
            answer == self.same(other),
    {
        !self.is_nan() && !other.is_nan() && (self.bits == other.bits || (self.is_zero()
            && other.is_zero()))
    }

    /// Whether the number is smaller than `other`.
    pub fn less_than(self, other: Float) -> (answer: bool)
        ensures
            answer == self.below(other),
    {
        if self.is_nan() || other.is_nan() || (self.is_zero() && other.is_zero()) {
            false
        } else if (self.bits >= SIGN) != (other.bits >= SIGN) {
            self.bits >= SIGN
        } else if self.bits >= SIGN {
            self.bits % SIGN > other.bits % SIGN
        } else {
            self.bits % SIGN < other.bits % SIGN
        }
    }

    /// The number with the opposite sign.
    pub fn negate(self) -> (negated: Float)
        ensures
            negated == self.opposite(),
    {
        if self.bits >= SIGN {
            Float { bits: self.bits - SIGN }
        } else {
            Float { bits: self.bits + SIGN }
        }
    }
}

} // verus!
