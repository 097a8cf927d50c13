//! Real numbers as the tracer carries them: IEEE-754 binary32 values, held as
//! their 32-bit patterns.
//!
//! The library never does arithmetic on a scalar. It stores scalars, hands
//! them on, and compares them; comparison is decided on the bit pattern alone,
//! exactly as the format defines it: the top bit is the sign, the remaining 31
//! bits grow with the absolute value, every pattern above that of infinity is
//! a NaN, and the two zeros are equal.
use vstd::prelude::*;

verus! {

/// The sign bit of a pattern.
pub const SIGN_BIT: u32 = 0x8000_0000;

/// The pattern of positive infinity; larger sign-less patterns are NaNs.
pub const INFINITY_BITS: u32 = 0x7f80_0000;

/// The pattern of `0.0`.
pub const ZERO_BITS: u32 = 0x0000_0000;

/// The pattern of `1.0`.
pub const ONE_BITS: u32 = 0x3f80_0000;

/// A binary32 value, identified by its bit pattern.
///
/// `==` on scalars is identity of patterns. Equality of the numbers they stand
/// for is [`Scalar::same_value`]: it holds between the two zeros and never for
/// a NaN.
#[derive(Clone, Copy, Debug, PartialEq, Eq, Structural)]
pub struct Scalar {
    pub bits: u32,
}

impl Scalar {
    /// The pattern without its sign bit.
    pub open spec fn magnitude(self) -> int {
        if self.bits >= SIGN_BIT {
            self.bits - SIGN_BIT
        } else {
            self.bits as int
        }
    }

    /// Whether the sign bit is set.
    pub open spec fn sign_set(self) -> bool {
        self.bits >= SIGN_BIT
    }

    /// Whether the pattern is not a number.
    pub open spec fn spec_is_nan(self) -> bool {
        self.magnitude() > INFINITY_BITS
    }

    /// The place of a number on the number line: for patterns that are numbers,
    /// `a` is less than `b` exactly when `a.rank() < b.rank()`, and both zeros
    /// have rank 0.
    pub open spec fn rank(self) -> int {
        if self.sign_set() {
            -self.magnitude()
        } else {
            self.magnitude()
        }
    }

    /// `self < other` as numbers; false when either is a NaN.
    pub open spec fn spec_lt(self, other: Scalar) -> bool {
        !self.spec_is_nan() && !other.spec_is_nan() && self.rank() < other.rank()
    }

    /// `self <= other` as numbers; false when either is a NaN.
    pub open spec fn spec_le(self, other: Scalar) -> bool {
        !self.spec_is_nan() && !other.spec_is_nan() && self.rank() <= other.rank()
    }

    /// `self == other` as numbers; false when either is a NaN.
    pub open spec fn spec_same_value(self, other: Scalar) -> bool {
        !self.spec_is_nan() && !other.spec_is_nan() && self.rank() == other.rank()
    }

    /// `self >= 0` as a number: true of both zeros, false of a NaN.
    pub open spec fn spec_is_non_negative(self) -> bool {
        !self.spec_is_nan() && self.rank() >= 0
    }

    /// The scalar with the given pattern.
    pub fn from_bits(bits: u32) -> (s: Scalar)
        ensures
            s.bits == bits,
    {
        Scalar { bits }
    }

    /// The pattern of this scalar.
    pub fn to_bits(self) -> (bits: u32)
        ensures
            bits == self.bits,
    {
        self.bits
    }

    /// The number zero, with a clear sign bit.
    pub fn zero() -> (s: Scalar)
        ensures
            s.bits == ZERO_BITS,
    {
        Scalar { bits: ZERO_BITS }
    }

    /// The number one.
    pub fn one() -> (s: Scalar)
        ensures
            s.bits == ONE_BITS,
    {
        Scalar { bits: ONE_BITS }
    }

    /// The sign-less pattern and whether the sign bit was set.
    pub(crate) fn split(self) -> (parts: (u32, bool))
        ensures
            parts.0 == self.magnitude(),
            parts.1 == self.sign_set(),
            parts.0 < SIGN_BIT,
    {
        if self.bits >= SIGN_BIT {
            (self.bits - SIGN_BIT, true)
        } else {
            (self.bits, false)
        }
    }

    /// Whether the pattern is not a number.
    #[verifier::when_used_as_spec(spec_is_nan)]
    pub fn is_nan(self) -> (r: bool)
        ensures
            r == self.spec_is_nan(),
    {
        let (magnitude, _) = self.split();
        magnitude > INFINITY_BITS
    }

    /// Whether the rank of `self` is below that of `other`, NaNs not excluded.
    fn rank_below(self, other: Scalar) -> (r: bool)
        ensures
            r == (self.rank() < other.rank()),
    {
        let (a, a_neg) = self.split();
        let (b, b_neg) = other.split();
        if a_neg {
            if b_neg {
                b < a
            } else {
                a > 0 || b > 0
            }
        } else {
            !b_neg && a < b
        }
    }

    /// `self < other` as numbers.
    #[verifier::when_used_as_spec(spec_lt)]
    pub fn lt(self, other: Scalar) -> (r: bool)
        ensures
            r == self.spec_lt(other),
    {
        !self.is_nan() && !other.is_nan() && self.rank_below(other)
    }

    /// `self <= other` as numbers.
    #[verifier::when_used_as_spec(spec_le)]
    pub fn le(self, other: Scalar) -> (r: bool)
        ensures
            r == self.spec_le(other),
    {
        !self.is_nan() && !other.is_nan() && !other.rank_below(self)
    }

    /// `self == other` as numbers.
    #[verifier::when_used_as_spec(spec_same_value)]
    pub fn same_value(self, other: Scalar) -> (r: bool)
        ensures
            r == self.spec_same_value(other),
    {
        !self.is_nan() && !other.is_nan() && !self.rank_below(other) && !other.rank_below(self)
    }

    /// `self >= 0` as a number.
    #[verifier::when_used_as_spec(spec_is_non_negative)]
    pub fn is_non_negative(self) -> (r: bool)
        ensures
            r == self.spec_is_non_negative(),
    {
        let (magnitude, negative) = self.split();
        magnitude <= INFINITY_BITS && (!negative || magnitude == 0)
    }
}

/// Numbers are totally ordered: of two scalars that are not NaNs, exactly one
/// is less than the other, or they have the same value.
pub proof fn lemma_numbers_are_totally_ordered(a: Scalar, b: Scalar)
    requires
        !a.is_nan(),
        !b.is_nan(),
    ensures
        a.lt(b) || b.lt(a) || a.same_value(b),
        !(a.lt(b) && b.lt(a)),
        !(a.lt(b) && a.same_value(b)),
        a.le(b) <==> a.lt(b) || a.same_value(b),
{
}

/// `<` on scalars is transitive, and a NaN is neither below nor above anything.
pub proof fn lemma_lt_is_a_strict_order(a: Scalar, b: Scalar, c: Scalar)
    ensures
        !a.lt(a),
        a.lt(b) && b.lt(c) ==> a.lt(c),
        a.is_nan() ==> !a.lt(b) && !b.lt(a) && !a.le(b) && !a.same_value(b),
{
}

/// The two zeros have the same value though their patterns differ.
pub proof fn lemma_zeros_have_the_same_value()
    ensures
        (Scalar { bits: ZERO_BITS }).same_value((Scalar { bits: SIGN_BIT })),
        (Scalar { bits: SIGN_BIT }).is_non_negative(),
{
}

} // verus!
