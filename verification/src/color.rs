//! Colours: three scalars, with nothing kept inside any range until asked.
use crate::scalar::{Scalar, ONE_BITS, ZERO_BITS};
use crate::value::{lemma_order_agrees_with_value, lemma_value_of_zero_and_one};
use vstd::arithmetic::power2::pow2;
use vstd::prelude::*;

verus! {

/// A colour by its red, green and blue parts. A part may lie outside `[0, 1]`:
/// light adds up, and an image is brought into range when it is written.
///
/// `==` compares patterns.
#[derive(Clone, Copy, Debug, PartialEq, Eq, Structural)]
pub struct Color {
    pub r: Scalar,
    pub g: Scalar,
    pub b: Scalar,
}

/// `value` brought into `[min, max]`: `min` where it is below `min`, `max`
/// where it is above `max`, else `value` itself. A NaN is neither below nor
/// above and stays.
pub open spec fn clamped(value: Scalar, min: Scalar, max: Scalar) -> Scalar {
    if value.lt(min) {
        min
    } else if max.lt(value) {
        max
    } else {
        value
    }
}

/// `value` brought into `[min, max]`.
pub fn clamp(value: Scalar, min: Scalar, max: Scalar) -> (r: Scalar)
    ensures
        r == clamped(value, min, max),
{
    if value.lt(min) {
        min
    } else if max.lt(value) {
        max
    } else {
        value
    }
}

impl Color {
    /// The colour with every part brought into `[0, 1]`.
    pub open spec fn spec_clamp(&self) -> Color {
        Color {
            r: clamped(self.r, zero(), one()),
            g: clamped(self.g, zero(), one()),
            b: clamped(self.b, zero(), one()),
        }
    }

    /// The colour with the given parts.
    pub fn new(r: Scalar, g: Scalar, b: Scalar) -> (c: Color)
        ensures
            c == (Color { r, g, b }),
    {
        Color { r, g, b }
    }

    /// Overwrites this colour with `other`.
    pub fn set(&mut self, other: &Color)
        ensures
            *final(self) == *other,
    {
        self.r = other.r;
        self.g = other.g;
        self.b = other.b;
    }

    /// The colour with every part brought into `[0, 1]`.
    #[verifier::when_used_as_spec(spec_clamp)]
    pub fn clamp(&self) -> (c: Color)
        ensures
            c == self.spec_clamp(),
    {
        Color::new(
            clamp(self.r, Scalar::zero(), Scalar::one()),
            clamp(self.g, Scalar::zero(), Scalar::one()),
            clamp(self.b, Scalar::zero(), Scalar::one()),
        )
    }
}

/// Black: no light at all.
pub fn black() -> (c: Color)
    ensures
        c == grey_of(zero()),
{
    Color::new(Scalar::zero(), Scalar::zero(), Scalar::zero())
}

/// Full red.
pub fn red() -> (c: Color)
    ensures
        c == (Color { r: one(), g: zero(), b: zero() }),
{
    Color::new(Scalar::one(), Scalar::zero(), Scalar::zero())
}

/// White: every part at one.
pub fn white() -> (c: Color)
    ensures
        c == grey_of(one()),
{
    Color::new(Scalar::one(), Scalar::one(), Scalar::one())
}

/// The colour whose three parts are all `x`.
pub open spec fn grey_of(x: Scalar) -> Color {
    Color { r: x, g: x, b: x }
}

/// The grey whose three parts are all `x`.
pub fn grey(x: Scalar) -> (c: Color)
    ensures
        c == grey_of(x),
{
    Color::new(x, x, x)
}

/// A part that is a number is worth, once clamped, no less than zero and no
/// more than one, which is `2^149` steps; a part that was worth that is
/// unchanged, and so is a NaN; and clamping twice changes nothing more.
pub proof fn lemma_clamp_brings_into_range(c: Color)
    ensures
        !c.r.is_nan() ==> c.clamp().r.is_finite() && 0 <= c.clamp().r.scaled() <= pow2(149),
        !c.g.is_nan() ==> c.clamp().g.is_finite() && 0 <= c.clamp().g.scaled() <= pow2(149),
        !c.b.is_nan() ==> c.clamp().b.is_finite() && 0 <= c.clamp().b.scaled() <= pow2(149),
        c.r.is_finite() && 0 <= c.r.scaled() <= pow2(149) ==> c.clamp().r == c.r,
        c.g.is_finite() && 0 <= c.g.scaled() <= pow2(149) ==> c.clamp().g == c.g,
        c.b.is_finite() && 0 <= c.b.scaled() <= pow2(149) ==> c.clamp().b == c.b,
        c.r.is_nan() ==> c.clamp().r == c.r,
        c.clamp().clamp() == c.clamp(),
{
    lemma_clamped_part_is_in_range(c.r);
    lemma_clamped_part_is_in_range(c.g);
    lemma_clamped_part_is_in_range(c.b);
}

/// What clamping to `[0, 1]` does to one part, by value.
proof fn lemma_clamped_part_is_in_range(x: Scalar)
    ensures
        !x.is_nan() ==> clamped(x, zero(), one()).is_finite() && 0 <= clamped(
            x,
            zero(),
            one(),
        ).scaled() <= pow2(149),
        x.is_finite() && 0 <= x.scaled() <= pow2(149) ==> clamped(x, zero(), one()) == x,
{
    lemma_value_of_zero_and_one();
    if x.is_finite() {
        lemma_order_agrees_with_value(x, zero());
        lemma_order_agrees_with_value(one(), x);
    }
}

/// The number zero.
pub open spec fn zero() -> Scalar {
    Scalar { bits: ZERO_BITS }
}

/// The number one.
pub open spec fn one() -> Scalar {
    Scalar { bits: ONE_BITS }
}

} // verus!
