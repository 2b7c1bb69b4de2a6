//! Real numbers.
//!
//! The calculator keeps integers and fractions exact and falls back to
//! double-precision reals only where a result is irrational. It never
//! computes with reals itself: a [`Real`] is carried as the 64 bits of an
//! IEEE 754 double, and whoever uses the calculator supplies the arithmetic
//! as an implementation of [`RealOps`]. What the calculator does with the
//! results is verified for every such implementation.

use num_bigint::BigInt;
use vstd::prelude::*;

verus! {

/// A double-precision real, as its IEEE 754 bit pattern.
#[derive(Clone, Copy, Debug, PartialEq, Eq)]
pub struct Real {
    pub bits: u64,
}

/// The bit pattern of the double nearest to pi.
pub const PI_BITS: u64 = 0x400921FB54442D18;

/// The bit pattern of the double nearest to Euler's number.
pub const E_BITS: u64 = 0x4005BF0A8B145769;

/// The bit pattern of the double nearest to the square root of 2.
pub const SQRT2_BITS: u64 = 0x3FF6A09E667F3BCD;

/// The bit pattern of the double nearest to the square root of 3.
pub const SQRT3_BITS: u64 = 0x3FFBB67AE8584CAA;

/// All bits of a double but its sign.
pub const MAGNITUDE_MASK: u64 = 0x7FFF_FFFF_FFFF_FFFF;

impl Real {
    /// The real with the given bit pattern.
    pub fn from_bits(bits: u64) -> (r: Real)
        ensures
            r.bits == bits,
    {
        Real { bits }
    }

    /// The bit pattern of this real.
    pub fn to_bits(&self) -> (bits: u64)
        ensures
            bits == self.bits,
    {
        self.bits
    }

    /// This real is zero: positive or negative zero, the two doubles that
    /// compare equal to 0.
    pub open spec fn zero(self) -> bool {
        self.bits & MAGNITUDE_MASK == 0
    }

    /// Whether this real is zero, of either sign.
    pub fn is_zero(&self) -> (z: bool)
        ensures
            z == self.zero(),
    {
        self.bits & MAGNITUDE_MASK == 0
    }
}

/// Arithmetic on double-precision reals, supplied by the user of the
/// calculator. The calculator relies on nothing about the results: every
/// function may return any value.
pub trait RealOps {
    /// The real nearest to an integer.
    fn from_int(i: i64) -> Real;

    /// The real nearest to a big integer, if there is one.
    fn from_big(b: &BigInt) -> Option<Real>;

    /// The integer part of a real, brought into the range of `i64`.
    fn to_int(r: Real) -> i64;

    /// The integer part of a real, if the real is finite.
    fn to_big(r: Real) -> Option<BigInt>;

    /// The real that a text denotes, if it denotes one.
    fn parse(text: &str) -> Option<Real>;

    /// The text that denotes a real.
    fn format(r: Real) -> String;

    fn negate(r: Real) -> Real;

    fn abs(r: Real) -> Real;

    fn sum(a: Real, b: Real) -> Real;

    fn difference(a: Real, b: Real) -> Real;

    fn product(a: Real, b: Real) -> Real;

    fn quotient(a: Real, b: Real) -> Real;

    /// `a` raised to `b`.
    fn power(a: Real, b: Real) -> Real;

    /// Natural logarithm.
    fn ln(r: Real) -> Real;

    fn sqrt(r: Real) -> Real;

    /// Sine of an angle in radians.
    fn sin(r: Real) -> Real;

    /// Degrees to radians.
    fn to_radians(r: Real) -> Real;

    /// The least whole real that is not below `r`.
    fn ceil(r: Real) -> Real;

    /// Whether `a` is below `b`.
    fn less(a: Real, b: Real) -> bool;
}

} // verus!
