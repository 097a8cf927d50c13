//! Points and vectors: four scalars, the fourth of which tells the two apart.
use crate::scalar::{Scalar, ONE_BITS, SIGN_BIT, ZERO_BITS};
use crate::value::{lemma_order_agrees_with_value, lemma_value_grows_with_magnitude};
use vstd::arithmetic::power2::{lemma2_to64, lemma_pow2_adds, lemma_pow2_pos, pow2};
use vstd::prelude::*;

verus! {

/// The pattern of the tolerance, one ten-thousandth as binary32 has it, within
/// which a fourth component counts as 0 or as 1.
pub const KIND_TOLERANCE_BITS: u32 = 0x38d1_b717;

/// The tolerance.
pub open spec fn tolerance() -> Scalar {
    Scalar { bits: KIND_TOLERANCE_BITS }
}

/// The least pattern whose value differs from one by less than the tolerance.
///
/// The difference is the exact one. The difference that binary32 arithmetic
/// gives is the same this close to one, where it is not rounded.
pub const POINT_W_MIN_BITS: u32 = 0x3f7f_f973;

/// The greatest pattern whose value differs from one by less than the
/// tolerance.
pub const POINT_W_MAX_BITS: u32 = 0x3f80_0346;

/// Four scalars `(x, y, z, w)`. A tuple whose `w` is 1 is a point, one whose
/// `w` is 0 is a vector; both up to a tolerance of one ten-thousandth.
///
/// `==` compares patterns; [`Tuple::same_value`] compares numbers.
#[derive(Clone, Copy, Debug, PartialEq, Eq, Structural)]
pub struct Tuple {
    pub x: Scalar,
    pub y: Scalar,
    pub z: Scalar,
    pub w: Scalar,
}

impl Tuple {
    /// Whether the tuple is a point: `|w - 1| < 0.0001`.
    pub open spec fn spec_is_point(&self) -> bool {
        POINT_W_MIN_BITS <= self.w.bits <= POINT_W_MAX_BITS
    }

    /// Whether the tuple is a vector: `|w| < 0.0001`, whatever the sign of `w`.
    pub open spec fn spec_is_vec(&self) -> bool {
        self.w.magnitude() < KIND_TOLERANCE_BITS
    }

    /// Whether the two tuples hold the same four numbers.
    pub open spec fn spec_same_value(&self, other: &Tuple) -> bool {
        &&& self.x.same_value(other.x)
        &&& self.y.same_value(other.y)
        &&& self.z.same_value(other.z)
        &&& self.w.same_value(other.w)
    }

    /// The tuple with the given components.
    pub fn new(x: Scalar, y: Scalar, z: Scalar, w: Scalar) -> (t: Tuple)
        ensures
            t == (Tuple { x, y, z, w }),
    {
        Tuple { x, y, z, w }
    }

    /// Whether the tuple is a point.
    #[verifier::when_used_as_spec(spec_is_point)]
    pub fn is_point(&self) -> (r: bool)
        ensures
            r == self.spec_is_point(),
    {
        POINT_W_MIN_BITS <= self.w.bits && self.w.bits <= POINT_W_MAX_BITS
    }

    /// Whether the tuple is a vector.
    #[verifier::when_used_as_spec(spec_is_vec)]
    pub fn is_vec(&self) -> (r: bool)
        ensures
            r == self.spec_is_vec(),
    {
        let magnitude = if self.w.bits >= SIGN_BIT {
            self.w.bits - SIGN_BIT
        } else {
            self.w.bits
        };
        magnitude < KIND_TOLERANCE_BITS
    }

    /// Whether the two tuples hold the same four numbers. No tuple with a NaN
    /// in it has the same value as any tuple.
    #[verifier::when_used_as_spec(spec_same_value)]
    pub fn same_value(&self, other: &Tuple) -> (r: bool)
        ensures
            r == self.spec_same_value(other),
    {
        self.x.same_value(other.x) && self.y.same_value(other.y) && self.z.same_value(other.z)
            && self.w.same_value(other.w)
    }
}

/// The point `(x, y, z)`: its fourth component is exactly one.
pub fn point(x: Scalar, y: Scalar, z: Scalar) -> (t: Tuple)
    ensures
        t == (Tuple { x, y, z, w: Scalar { bits: ONE_BITS } }),
        t.is_point(),
        !t.is_vec(),
{
    Tuple::new(x, y, z, Scalar::one())
}

/// The vector `(x, y, z)`: its fourth component is exactly zero.
pub fn vec(x: Scalar, y: Scalar, z: Scalar) -> (t: Tuple)
    ensures
        t == (Tuple { x, y, z, w: Scalar { bits: ZERO_BITS } }),
        t.is_vec(),
        !t.is_point(),
{
    Tuple::new(x, y, z, Scalar::zero())
}

/// No tuple is both a point and a vector.
pub proof fn lemma_point_and_vector_are_disjoint(t: Tuple)
    ensures
        !(t.is_point() && t.is_vec()),
{
}

/// A vector is a tuple whose fourth component is finite and differs from zero
/// by less than the tolerance.
pub proof fn lemma_vector_w_is_near_zero(t: Tuple)
    ensures
        t.is_vec() <==> t.w.is_finite() && -tolerance().scaled() < t.w.scaled()
            < tolerance().scaled(),
{
    if t.w.is_finite() {
        if t.w.magnitude() < tolerance().magnitude() {
            lemma_value_grows_with_magnitude(t.w, tolerance());
        } else if t.w.magnitude() > tolerance().magnitude() {
            lemma_value_grows_with_magnitude(tolerance(), t.w);
        }
    }
}

/// A point is a tuple whose fourth component is finite and differs from one,
/// which is worth `2^149` steps, by less than the tolerance.
pub proof fn lemma_point_w_is_near_one(t: Tuple)
    ensures
        t.is_point() <==> t.w.is_finite() && -tolerance().scaled() < t.w.scaled() - pow2(149)
            < tolerance().scaled(),
{
    let least = Scalar { bits: POINT_W_MIN_BITS };
    let below = Scalar { bits: (POINT_W_MIN_BITS - 1) as u32 };
    let greatest = Scalar { bits: POINT_W_MAX_BITS };
    let above = Scalar { bits: (POINT_W_MAX_BITS + 1) as u32 };
    let unit = pow2(112) as int;
    lemma2_to64();
    lemma_pow2_pos(112);
    lemma_pow2_adds(13, 112);
    lemma_pow2_adds(14, 112);
    lemma_pow2_adds(5, 32);
    lemma_pow2_adds(37, 112);
    assert(tolerance().exponent_field() == 113 && tolerance().fraction_field() == 0x51_b717);
    assert(least.exponent_field() == 126 && least.fraction_field() == 0x7f_f973);
    assert(below.exponent_field() == 126 && below.fraction_field() == 0x7f_f972);
    assert(greatest.exponent_field() == 127 && greatest.fraction_field() == 0x346);
    assert(above.exponent_field() == 127 && above.fraction_field() == 0x347);
    assert(tolerance().scaled() == 0xd1_b717 * unit);
    assert(least.scaled() == (0xff_f973 * 0x2000) * unit) by (nonlinear_arith)
        requires
            least.scaled() == 0xff_f973 * (0x2000 * unit),
    ;
    assert(below.scaled() == (0xff_f972 * 0x2000) * unit) by (nonlinear_arith)
        requires
            below.scaled() == 0xff_f972 * (0x2000 * unit),
    ;
    assert(greatest.scaled() == (0x80_0346 * 0x4000) * unit) by (nonlinear_arith)
        requires
            greatest.scaled() == 0x80_0346 * (0x4000 * unit),
    ;
    assert(above.scaled() == (0x80_0347 * 0x4000) * unit) by (nonlinear_arith)
        requires
            above.scaled() == 0x80_0347 * (0x4000 * unit),
    ;
    assert(pow2(149) == 0x20_0000_0000 * unit);
    assert(below.scaled() <= pow2(149) - tolerance().scaled() < least.scaled())
        by (nonlinear_arith)
        requires
            unit > 0,
            tolerance().scaled() == 0xd1_b717 * unit,
            least.scaled() == (0xff_f973 * 0x2000) * unit,
            below.scaled() == (0xff_f972 * 0x2000) * unit,
            pow2(149) == 0x20_0000_0000 * unit,
    ;
    assert(greatest.scaled() < pow2(149) + tolerance().scaled() <= above.scaled())
        by (nonlinear_arith)
        requires
            unit > 0,
            tolerance().scaled() == 0xd1_b717 * unit,
            greatest.scaled() == (0x80_0346 * 0x4000) * unit,
            above.scaled() == (0x80_0347 * 0x4000) * unit,
            pow2(149) == 0x20_0000_0000 * unit,
    ;
    if t.w.is_finite() {
        lemma_order_agrees_with_value(t.w, least);
        lemma_order_agrees_with_value(t.w, below);
        lemma_order_agrees_with_value(t.w, greatest);
        lemma_order_agrees_with_value(t.w, above);
    }
}

} // verus!
