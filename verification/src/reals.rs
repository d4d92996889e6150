//! Real numbers as IEEE-754 double-precision bit patterns.
//!
//! A [`Real`] carries the 64 bits of a double. Comparison is decided on the
//! bits: the patterns above positive infinity in magnitude are the NaNs, the
//! two zeros are equal, and every other pair is ordered by sign and
//! magnitude. Arithmetic on reals is not carried out here; the machine hands
//! it to its host (see [`crate::machine::Outcome::Real`]).

use vstd::prelude::*;

verus! {

/// The sign bit of a double.
pub const SIGN_BIT: u64 = 0x8000_0000_0000_0000;

/// The bit pattern of positive infinity; every larger magnitude is a NaN.
pub const INFINITY_BITS: u64 = 0x7ff0_0000_0000_0000;

/// An IEEE-754 double, held as its bit pattern.
///
/// The derived `==` compares the bits and is meant for bookkeeping only; the
/// numeric comparisons are [`Real::equals`], [`Real::less`] and their kin.
#[derive(Clone, Copy, PartialEq, Eq, Structural, Hash, Debug)]
pub struct Real {
    pub bits: u64,
}

impl Real {
    /// The bit pattern without its sign bit.
    pub open spec fn magnitude(self) -> int {
        if self.bits >= SIGN_BIT {
            self.bits - SIGN_BIT
        } else {
            self.bits as int
        }
    }

    /// Whether the pattern is a NaN.
    pub open spec fn nan(self) -> bool {
        self.magnitude() > INFINITY_BITS
    }

    /// Whether the pattern is one of the two zeros.
    pub open spec fn zero(self) -> bool {
        self.magnitude() == 0
    }

    /// The place of a non-NaN pattern on the number line: patterns with the
    /// sign bit set count downwards from zero, the others upwards.
    pub open spec fn rank(self) -> int {
        if self.bits >= SIGN_BIT {
            -self.magnitude()
        } else {
            self.magnitude()
        }
    }

    /// IEEE equality: neither operand is a NaN and both denote the same number.
    pub open spec fn equals(self, other: Real) -> bool {
        !self.nan() && !other.nan() && self.rank() == other.rank()
    }

    /// IEEE less-than: neither operand is a NaN and `self` lies strictly below `other`.
    pub open spec fn less(self, other: Real) -> bool {
        !self.nan() && !other.nan() && self.rank() < other.rank()
    }

    /// IEEE less-than-or-equal.
    pub open spec fn less_equal(self, other: Real) -> bool {
        !self.nan() && !other.nan() && self.rank() <= other.rank()
    }

    pub fn from_bits(bits: u64) -> (r: Real)
        ensures
            r.bits == bits,
    {
        Real { bits }
    }

    pub fn to_bits(self) -> (r: u64)
        ensures
            r == self.bits,
    {
        self.bits
    }

    fn magnitude_bits(self) -> (r: u64)
        ensures
            r == self.magnitude(),
    {
        if self.bits >= SIGN_BIT {
            self.bits - SIGN_BIT
        } else {
            self.bits
        }
    }

    pub fn is_nan(self) -> (r: bool)
        ensures
            r == self.nan(),
    {
        self.magnitude_bits() > INFINITY_BITS
    }

    pub fn is_zero(self) -> (r: bool)
        ensures
            r == self.zero(),
    {
        self.magnitude_bits() == 0
    }

    /// `self == other` on the numbers denoted.
    pub fn is_equal(self, other: Real) -> (r: bool)
        ensures
            r == self.equals(other),
    {
        if self.is_nan() || other.is_nan() {
            false
        } else if self.is_zero() {
            other.is_zero()
        } else {
            self.bits == other.bits
        }
    }

    /// `self < other` on the numbers denoted.
    pub fn is_less(self, other: Real) -> (r: bool)
        ensures
            r == self.less(other),
    {
        if self.is_nan() || other.is_nan() {
            false
        } else if self.bits >= SIGN_BIT {
            if other.bits >= SIGN_BIT {
                self.magnitude_bits() > other.magnitude_bits()
            } else {
                self.magnitude_bits() > 0 || other.magnitude_bits() > 0
            }
        } else {
            if other.bits >= SIGN_BIT {
                false
            } else {
                self.bits < other.bits
            }
        }
    }

    /// `self <= other` on the numbers denoted.
    pub fn is_less_equal(self, other: Real) -> (r: bool)
        ensures
            r == self.less_equal(other),
    {
        self.is_less(other) || self.is_equal(other)
    }

    /// `self > other` on the numbers denoted.
    pub fn is_greater(self, other: Real) -> (r: bool)
        ensures
            r == other.less(self),
    {
        other.is_less(self)
    }

    /// `self >= other` on the numbers denoted.
    pub fn is_greater_equal(self, other: Real) -> (r: bool)
        ensures
            r == other.less_equal(self),
    {
        other.is_less_equal(self)
    }
}

} // verus!
