//! Binary64 numbers, carried as their bit patterns.
//!
//! The library decides on the bits what the bits alone decide: sign, zero,
//! not-a-number and order. Rounding arithmetic is the work of a [`FloatUnit`].

use vstd::prelude::*;

verus! {

/// Bit of the sign in a binary64 pattern.
pub const SIGN_BIT: u64 = 0x8000_0000_0000_0000;

/// Pattern of positive infinity: every pattern whose magnitude is greater is not a number.
pub const INFINITY_BITS: u64 = 0x7ff0_0000_0000_0000;

/// Pattern of the machine epsilon, the gap between 1 and the next binary64 number.
pub const EPSILON_BITS: u64 = 0x3cb0_0000_0000_0000;

/// A binary64 number, held as the 64 bits of its encoding.
#[derive(Clone, Copy, Debug, PartialEq, Eq, Structural)]
pub struct FloatBits(pub u64);

/// An arithmetic operation on two binary64 numbers.
#[derive(Clone, Copy, Debug, PartialEq, Eq, Structural)]
pub enum FloatOperation {
    Add,
    Subtract,
    Multiply,
    Divide,
    Remainder,
    Power,
}

/// The rounding arithmetic of binary64 numbers, supplied by the host program.
///
/// Nothing is assumed of what an implementation returns: every function of the
/// library that takes a unit is verified for whatever the unit answers.
pub trait FloatUnit {
    /// The number that a decimal literal (digits, a dot, digits) denotes.
    fn parse(&self, literal: &str) -> FloatBits;

    /// The number nearest to an integer.
    fn from_integer(&self, value: i64) -> FloatBits;

    /// The integer part of a number.
    fn truncate(&self, value: FloatBits) -> i64;

    /// The decimal text of a number.
    fn render(&self, value: FloatBits) -> String;

    /// The rounded result of an arithmetic operation.
    fn compute(&self, operation: FloatOperation, left: FloatBits, right: FloatBits) -> FloatBits;
}

impl FloatBits {
    /// The pattern without its sign bit.
    pub open spec fn magnitude(self) -> u64 {
        if self.0 >= SIGN_BIT {
            (self.0 - SIGN_BIT) as u64
        } else {
            self.0
        }
    }

    /// Whether the sign bit is set.
    pub open spec fn is_negative(self) -> bool {
        self.0 >= SIGN_BIT
    }

    /// Whether the pattern encodes no number.
    pub open spec fn is_nan(self) -> bool {
        self.magnitude() > INFINITY_BITS
    }

    /// Whether the pattern encodes zero, of either sign.
    pub open spec fn is_zero(self) -> bool {
        self.magnitude() == 0
    }

    /// Position of the number on a line on which the order of the positions
    /// is the order of the numbers; the two zeros share position 0.
    pub open spec fn position(self) -> int {
        if self.is_negative() {
            -(self.magnitude() as int)
        } else {
            self.magnitude() as int
        }
    }

    /// Whether `self` is less than `other` as numbers: never when one is not a number.
    pub open spec fn less_than(self, other: FloatBits) -> bool {
        !self.is_nan() && !other.is_nan() && self.position() < other.position()
    }

    /// The pattern with the sign bit flipped.
    pub open spec fn negated(self) -> FloatBits {
        if self.0 >= SIGN_BIT {
            FloatBits((self.0 - SIGN_BIT) as u64)
        } else {
            FloatBits((self.0 + SIGN_BIT) as u64)
        }
    }

    /// The pattern with the sign bit cleared.
    pub open spec fn absolute(self) -> FloatBits {
        FloatBits(self.magnitude())
    }

    /// Tests for zero of either sign.
    pub fn zero(&self) -> (r: bool)
        ensures
            r == self.is_zero(),
    {
        self.0 == 0 || self.0 == SIGN_BIT
    }

    /// Tests for a pattern that encodes no number.
    pub fn nan(&self) -> (r: bool)
        ensures
            r == self.is_nan(),
    {
        self.abs().0 > INFINITY_BITS
    }

    /// Flips the sign.
    pub fn neg(&self) -> (r: FloatBits)
        ensures
            r == self.negated(),
    {
        if self.0 >= SIGN_BIT {
            FloatBits(self.0 - SIGN_BIT)
        } else {
            FloatBits(self.0 + SIGN_BIT)
        }
    }

    /// Clears the sign.
    pub fn abs(&self) -> (r: FloatBits)
        ensures
            r == self.absolute(),
    {
        if self.0 >= SIGN_BIT {
            FloatBits(self.0 - SIGN_BIT)
        } else {
            FloatBits(self.0)
        }
    }

    /// Compares as numbers.
    pub fn lt(&self, other: &FloatBits) -> (r: bool)
        ensures
            r == self.less_than(*other),
    {
        if self.nan() || other.nan() {
            return false;
        }
        let a: u64 = self.abs().0;
        let b: u64 = other.abs().0;
        if self.0 >= SIGN_BIT {
            if other.0 >= SIGN_BIT {
                b < a
            } else {
                a > 0 || b > 0
            }
        } else {
            if other.0 >= SIGN_BIT {
                false
            } else {
                a < b
            }
        }
    }

    /// Whether two numbers differ by less than the machine epsilon, given their difference.
    pub fn within_epsilon(difference: FloatBits) -> (r: bool)
        ensures
            r == difference.absolute().less_than(FloatBits(EPSILON_BITS)),
    {
        difference.abs().lt(&FloatBits(EPSILON_BITS))
    }
}

} // verus!
