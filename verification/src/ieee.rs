//! IEEE-754 binary64 values held by their bit patterns, with the comparisons,
//! `min`, `max` and negation that the transformers and state stores need.
//!
//! A value travels through the library as the `u64` that `to_bits` gives; the
//! ordering below is the IEEE-754 ordering read off the sign-magnitude layout.
use vstd::prelude::*;

verus! {

/// Bit pattern of the sign bit.
pub const SIGN_BIT: u64 = 0x8000_0000_0000_0000u64;

/// Bit pattern of positive infinity (and the largest magnitude that is not a NaN).
pub const INF_BITS: u64 = 0x7FF0_0000_0000_0000u64;

/// Bit pattern of negative infinity.
pub const NEG_INF_BITS: u64 = 0xFFF0_0000_0000_0000u64;

/// Bit pattern of `1.0`.
pub const ONE_BITS: u64 = 0x3FF0_0000_0000_0000u64;

/// Bit pattern of `+0.0`.
pub const ZERO_BITS: u64 = 0u64;

/// A binary64 floating point value, held by its bit pattern.
#[derive(Clone, Copy, Debug)]
pub struct FloatBits {
    pub bits: u64,
}

/// Whether the sign bit is set.
pub open spec fn sign_set(b: u64) -> bool {
    b >= SIGN_BIT
}

/// The pattern without its sign bit.
pub open spec fn magnitude(b: u64) -> int {
    if sign_set(b) { b - SIGN_BIT } else { b as int }
}

/// A NaN: all exponent bits set and a non-zero mantissa.
pub open spec fn is_nan_bits(b: u64) -> bool {
    magnitude(b) > INF_BITS
}

/// Position of a non-NaN value on the number line, in units of the pattern.
/// Both zeros sit at 0; larger keys are larger values.
pub open spec fn order_key(b: u64) -> int {
    if sign_set(b) { -magnitude(b) } else { magnitude(b) }
}

/// IEEE `a < b`.
pub open spec fn ieee_lt(a: u64, b: u64) -> bool {
    !is_nan_bits(a) && !is_nan_bits(b) && order_key(a) < order_key(b)
}

/// IEEE `a == b` (false when either is a NaN; `-0.0 == +0.0`).
pub open spec fn ieee_eq(a: u64, b: u64) -> bool {
    !is_nan_bits(a) && !is_nan_bits(b) && order_key(a) == order_key(b)
}

/// `a.min(b)`: a NaN argument yields the other argument.
pub open spec fn ieee_min(a: u64, b: u64) -> u64 {
    if is_nan_bits(a) { b } else if is_nan_bits(b) { a } else if ieee_lt(b, a) { b } else { a }
}

/// `a.max(b)`: a NaN argument yields the other argument.
pub open spec fn ieee_max(a: u64, b: u64) -> u64 {
    if is_nan_bits(a) { b } else if is_nan_bits(b) { a } else if ieee_lt(a, b) { b } else { a }
}

/// `-a`: the same pattern with the sign bit flipped.
pub open spec fn ieee_neg(a: u64) -> u64 {
    if sign_set(a) { (a - SIGN_BIT) as u64 } else { (a + SIGN_BIT) as u64 }
}

impl FloatBits {
    /// Wraps a bit pattern.
    pub fn from_bits(bits: u64) -> (r: FloatBits)
        ensures
            r.bits == bits,
    {
        FloatBits { bits }
    }

    /// `+0.0`.
    pub fn zero() -> (r: FloatBits)
        ensures
            r.bits == ZERO_BITS,
    {
        FloatBits { bits: ZERO_BITS }
    }

    /// `1.0`.
    pub fn one() -> (r: FloatBits)
        ensures
            r.bits == ONE_BITS,
    {
        FloatBits { bits: ONE_BITS }
    }

    /// `f64::is_nan`.
    pub fn is_nan(&self) -> (r: bool)
        ensures
            r == is_nan_bits(self.bits),
    {
        let m = if self.bits >= SIGN_BIT { self.bits - SIGN_BIT } else { self.bits };
        m > INF_BITS
    }

    /// IEEE `self < other`.
    pub fn lt(&self, other: &FloatBits) -> (r: bool)
        ensures
            r == ieee_lt(self.bits, other.bits),
    {
        if self.is_nan() || other.is_nan() {
            return false;
        }
        let a = self.bits;
        let b = other.bits;
        if a >= SIGN_BIT {
            if b >= SIGN_BIT {
                // both negative: the larger magnitude is the smaller value
                a - SIGN_BIT > b - SIGN_BIT
            } else {
                // negative below non-negative, unless both are zeros
                !(a - SIGN_BIT == 0 && b == 0)
            }
        } else {
            if b >= SIGN_BIT {
                false
            } else {
                a < b
            }
        }
    }

    /// IEEE `self == other`.
    pub fn ieee_eq(&self, other: &FloatBits) -> (r: bool)
        ensures
            r == ieee_eq(self.bits, other.bits),
    {
        if self.is_nan() || other.is_nan() {
            return false;
        }
        let a = self.bits;
        let b = other.bits;
        let ma = if a >= SIGN_BIT { a - SIGN_BIT } else { a };
        let mb = if b >= SIGN_BIT { b - SIGN_BIT } else { b };
        if ma == 0 && mb == 0 {
            true
        } else {
            a == b
        }
    }

    /// `f64::min`.
    pub fn min(&self, other: &FloatBits) -> (r: FloatBits)
        ensures
            r.bits == ieee_min(self.bits, other.bits),
    {
        if self.is_nan() {
            *other
        } else if other.is_nan() {
            *self
        } else if other.lt(self) {
            *other
        } else {
            *self
        }
    }

    /// `f64::max`.
    pub fn max(&self, other: &FloatBits) -> (r: FloatBits)
        ensures
            r.bits == ieee_max(self.bits, other.bits),
    {
        if self.is_nan() {
            *other
        } else if other.is_nan() {
            *self
        } else if self.lt(other) {
            *other
        } else {
            *self
        }
    }

    /// Unary minus.
    pub fn neg(&self) -> (r: FloatBits)
        ensures
            r.bits == ieee_neg(self.bits),
    {
        if self.bits >= SIGN_BIT {
            FloatBits { bits: self.bits - SIGN_BIT }
        } else {
            FloatBits { bits: self.bits + SIGN_BIT }
        }
    }
}

} // verus!
