//! Numbers of the language: IEEE 754 binary32 values, held as their 32 bits.
//!
//! Everything that can be read off the bits is decided here: sign, class,
//! order and equality. Rounded arithmetic is not; the evaluator hands such
//! work out as an [`Arithmetic`] request and takes the answer back.

use vstd::prelude::*;

verus! {

/// The weight of the sign bit.
pub const SIGN_BIT: u32 = 0x8000_0000;

/// The magnitude of positive infinity; every larger magnitude is a NaN.
pub const INFINITY_BITS: u32 = 0x7f80_0000;

/// A binary32 value, identified by its bit pattern.
#[derive(Clone, Copy, Debug, PartialEq, Eq)]
pub struct Number {
    pub bits: u32,
}

/// One of the four rounded operations on numbers.
#[derive(Clone, Copy, Debug, PartialEq, Eq)]
pub enum Operation {
    Add,
    Subtract,
    Multiply,
    Divide,
}

/// A rounded operation that is waiting to be carried out on two numbers.
#[derive(Clone, Copy, Debug, PartialEq, Eq)]
pub struct Arithmetic {
    pub operation: Operation,
    pub left: Number,
    pub right: Number,
}

impl Number {
    /// Whether the sign bit is set.
    pub open spec fn is_negative(self) -> bool {
        self.bits >= SIGN_BIT
    }

    /// The bits below the sign bit, as an integer.
    pub open spec fn magnitude(self) -> int {
        if self.bits >= SIGN_BIT {
            self.bits - SIGN_BIT
        } else {
            self.bits as int
        }
    }

    /// Not a number: the exponent is all ones and the fraction is not zero.
    pub open spec fn is_nan(self) -> bool {
        self.magnitude() > INFINITY_BITS
    }

    /// Positive or negative zero.
    pub open spec fn is_zero(self) -> bool {
        self.magnitude() == 0
    }

    /// The place of a number that is not a NaN on the number line: the
    /// magnitude counted upwards for positive values and downwards for
    /// negative ones, so that both zeros share the place 0.
    pub open spec fn rank(self) -> int {
        if self.is_negative() {
            -self.magnitude()
        } else {
            self.magnitude()
        }
    }

    /// The number with the opposite sign and the same magnitude.
    pub open spec fn negation(self) -> Number {
        Number {
            bits: if self.bits >= SIGN_BIT {
                (self.bits - SIGN_BIT) as u32
            } else {
                (self.bits + SIGN_BIT) as u32
            },
        }
    }

    /// `self < other` as binary32 defines it: false when either is a NaN.
    pub open spec fn below(self, other: Number) -> bool {
        !self.is_nan() && !other.is_nan() && self.rank() < other.rank()
    }

    /// `self == other` as binary32 defines it: a NaN equals nothing, and the
    /// two zeros equal each other.
    pub open spec fn equal_to(self, other: Number) -> bool {
        !self.is_nan() && !other.is_nan() && self.rank() == other.rank()
    }

    pub fn from_bits(bits: u32) -> (r: Number)
        ensures
            r.bits == bits,
    {
        Number { bits }
    }

    pub fn to_bits(self) -> (r: u32)
        ensures
            r == self.bits,
    {
        self.bits
    }

    fn signed_magnitude(self) -> (r: (bool, u32))
        ensures
            r.0 == self.is_negative(),
            r.1 == self.magnitude(),
    {
        if self.bits >= SIGN_BIT {
            (true, self.bits - SIGN_BIT)
        } else {
            (false, self.bits)
        }
    }

    pub fn is_not_a_number(self) -> (r: bool)
        ensures
            r == self.is_nan(),
    {
        self.signed_magnitude().1 > INFINITY_BITS
    }

    pub fn is_zero_value(self) -> (r: bool)
        ensures
            r == self.is_zero(),
    {
        self.signed_magnitude().1 == 0
    }

    pub fn negated(self) -> (r: Number)
        ensures
            r == self.negation(),
    {
        if self.bits >= SIGN_BIT {
            Number { bits: self.bits - SIGN_BIT }
        } else {
            Number { bits: self.bits + SIGN_BIT }
        }
    }

    pub fn less_than(self, other: Number) -> (r: bool)
        ensures
            r == self.below(other),
    {
        let (negative, size) = self.signed_magnitude();
        let (other_negative, other_size) = other.signed_magnitude();
        if size > INFINITY_BITS || other_size > INFINITY_BITS {
            false
        } else if negative {
            if other_negative {
                other_size < size
            } else {
                size > 0 || other_size > 0
            }
        } else {
            !other_negative && size < other_size
        }
    }

    pub fn equals(self, other: Number) -> (r: bool)
        ensures
            r == self.equal_to(other),
    {
        let (negative, size) = self.signed_magnitude();
        let (other_negative, other_size) = other.signed_magnitude();
        if size > INFINITY_BITS || other_size > INFINITY_BITS {
            false
        } else if negative == other_negative {
            size == other_size
        } else {
            size == 0 && other_size == 0
        }
    }

    pub fn less_or_equal(self, other: Number) -> (r: bool)
        ensures
            r == (self.below(other) || self.equal_to(other)),
    {
        self.less_than(other) || self.equals(other)
    }

    pub fn greater_than(self, other: Number) -> (r: bool)
        ensures
            r == other.below(self),
    {
        other.less_than(self)
    }

    pub fn greater_or_equal(self, other: Number) -> (r: bool)
        ensures
            r == (other.below(self) || other.equal_to(self)),
    {
        other.less_than(self) || other.equals(self)
    }
}

} // verus!
