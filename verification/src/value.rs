//! What a scalar is worth: the value of a finite binary32 pattern as a whole
//! number of steps of `2^-149`, the smallest difference that the format can
//! express, and what follows for its floor.
use crate::scalar::{Scalar, INFINITY_BITS};
use vstd::arithmetic::div_mod::{lemma_fundamental_div_mod, lemma_fundamental_div_mod_converse};
use vstd::arithmetic::power2::{
    lemma2_to64, lemma_pow2_adds, lemma_pow2_pos, lemma_pow2_strictly_increases, lemma_pow2_unfold,
    pow2,
};
use vstd::bits::lemma_u32_shl_is_mul;
use vstd::prelude::*;

verus! {

/// The bit that stands in front of the 23 fraction bits of a number that is
/// not subnormal.
pub const HIDDEN_BIT: u32 = 0x0080_0000;

impl Scalar {
    /// Whether the pattern is a finite number: neither an infinity nor a NaN.
    pub open spec fn spec_is_finite(self) -> bool {
        self.magnitude() < INFINITY_BITS
    }

    /// The eight bits of the exponent.
    pub open spec fn exponent_field(self) -> int {
        self.magnitude() / (HIDDEN_BIT as int)
    }

    /// The 23 bits of the fraction.
    pub open spec fn fraction_field(self) -> int {
        self.magnitude() % (HIDDEN_BIT as int)
    }

    /// The significand as a whole number: the fraction, with the hidden bit in
    /// front of it unless the number is subnormal.
    pub open spec fn significand(self) -> int {
        if self.exponent_field() == 0 {
            self.fraction_field()
        } else {
            self.fraction_field() + HIDDEN_BIT
        }
    }

    /// The power of two that scales the significand, counted from the smallest
    /// that the format has: the number is `significand * 2^(places - 149)`.
    pub open spec fn places(self) -> nat {
        if self.exponent_field() == 0 {
            0
        } else {
            (self.exponent_field() - 1) as nat
        }
    }

    /// The value of a finite scalar in units of `2^-149`, the smallest step of
    /// the format: every finite scalar is a whole number of them.
    pub open spec fn scaled(self) -> int {
        if self.sign_set() {
            -(self.significand() * pow2(self.places()))
        } else {
            self.significand() * pow2(self.places())
        }
    }

    /// The greatest whole number that is not above the value of a finite
    /// scalar.
    pub open spec fn floor(self) -> int {
        self.scaled() / (pow2(149) as int)
    }

    /// Whether the scalar is finite and the greatest whole number not above it
    /// is even.
    pub open spec fn spec_floor_is_even(self) -> bool {
        self.spec_is_finite() && self.floor() % 2 == 0
    }

    /// Whether the pattern is a finite number.
    #[verifier::when_used_as_spec(spec_is_finite)]
    pub fn is_finite(self) -> (r: bool)
        ensures
            r == self.spec_is_finite(),
    {
        let (magnitude, _) = self.split();
        magnitude < INFINITY_BITS
    }

    /// Whether the scalar is finite and the greatest whole number not above it
    /// is even. For a scalar that is a whole number this says that it is even;
    /// both zeros are.
    #[verifier::when_used_as_spec(spec_floor_is_even)]
    pub fn floor_is_even(self) -> (r: bool)
        ensures
            r == self.spec_floor_is_even(),
    {
        let (magnitude, negative) = self.split();
        if magnitude >= INFINITY_BITS {
            return false;
        }
        let exponent: u32 = magnitude / HIDDEN_BIT;
        let fraction: u32 = magnitude % HIDDEN_BIT;
        let significand: u32 = if exponent == 0 {
            fraction
        } else {
            fraction + HIDDEN_BIT
        };
        let places: u32 = if exponent == 0 {
            0
        } else {
            exponent - 1
        };
        assert(self.significand() == significand && self.places() == places);
        if places > 149 {
            proof {
                let half = pow2((places - 150) as nat) as int;
                lemma_floor_of_whole(self);
                lemma_pow2_unfold((places - 149) as nat);
                assert(significand * (2 * half) == 2 * (significand * half)) by (nonlinear_arith);
                assert(self.floor() == 2 * (significand * half) || self.floor() == -(2 * (
                significand * half)));
            }
            true
        } else if places == 149 {
            proof {
                lemma_floor_of_whole(self);
                lemma2_to64();
                assert(significand * 1 == significand);
                assert(self.floor() == significand || self.floor() == -significand);
            }
            significand % 2 == 0
        } else {
            let below: u32 = 149 - places;
            if below >= 24 {
                proof {
                    lemma2_to64();
                    if below > 24 {
                        lemma_pow2_strictly_increases(24, below as nat);
                    }
                    lemma_floor_by_parts(self, 0, significand as int);
                    assert(self.floor() == if !negative || significand == 0 {
                        0int
                    } else {
                        -1int
                    });
                }
                !negative || significand == 0
            } else {
                proof {
                    lemma2_to64();
                    lemma_pow2_strictly_increases(below as nat, 24);
                    lemma_u32_shl_is_mul(1, below);
                }
                let unit: u32 = 1u32 << below;
                let quotient: u32 = significand / unit;
                let rest: u32 = significand % unit;
                proof {
                    lemma_fundamental_div_mod(significand as int, unit as int);
                    assert(unit * quotient == quotient * unit) by (nonlinear_arith);
                    lemma_floor_by_parts(self, quotient as int, rest as int);
                    assert(self.floor() == if !negative {
                        quotient as int
                    } else if rest == 0 {
                        -quotient
                    } else {
                        -(quotient + 1)
                    });
                }
                if negative && rest != 0 {
                    (quotient + 1) % 2 == 0
                } else {
                    quotient % 2 == 0
                }
            }
        }
    }
}

/// The floor of a finite scalar that is at least `2^23` in absolute value, and
/// so a whole number: the scalar itself.
proof fn lemma_floor_of_whole(x: Scalar)
    requires
        x.is_finite(),
        x.places() >= 149,
    ensures
        x.floor() == if x.sign_set() {
            -(x.significand() * pow2((x.places() - 149) as nat))
        } else {
            x.significand() * pow2((x.places() - 149) as nat)
        },
{
    let m = x.significand();
    let above = pow2((x.places() - 149) as nat) as int;
    let unit = pow2(149) as int;
    lemma_pow2_adds((x.places() - 149) as nat, 149);
    lemma_pow2_pos(149);
    assert(pow2(x.places()) == above * unit);
    assert(m * (above * unit) == (m * above) * unit) by (nonlinear_arith);
    assert(-(m * (above * unit)) == (-(m * above)) * unit) by (nonlinear_arith);
    if x.sign_set() {
        lemma_fundamental_div_mod_converse(x.scaled(), unit, -(m * above), 0);
    } else {
        lemma_fundamental_div_mod_converse(x.scaled(), unit, m * above, 0);
    }
}

/// The floor of a finite scalar below `2^23` in absolute value, from the
/// quotient and the rest of its significand by the power of two that stands
/// for one: the quotient for a positive scalar; for a negative one minus the
/// quotient, and one less where there is a rest.
proof fn lemma_floor_by_parts(x: Scalar, quotient: int, rest: int)
    requires
        x.is_finite(),
        x.places() < 149,
        x.significand() == quotient * pow2((149 - x.places()) as nat) + rest,
        0 <= rest < pow2((149 - x.places()) as nat),
    ensures
        x.floor() == if !x.sign_set() {
            quotient
        } else if rest == 0 {
            -quotient
        } else {
            -(quotient + 1)
        },
{
    let m = x.significand();
    let low = pow2(x.places()) as int;
    let one = pow2((149 - x.places()) as nat) as int;
    let unit = pow2(149) as int;
    lemma_pow2_adds(x.places(), (149 - x.places()) as nat);
    lemma_pow2_pos(x.places());
    lemma_pow2_pos(149);
    assert(unit == low * one);
    assert(0 <= rest * low < one * low) by (nonlinear_arith)
        requires
            0 <= rest < one,
            low > 0,
    ;
    assert(0 < (one - rest) * low <= one * low) by (nonlinear_arith)
        requires
            0 <= rest < one,
            low > 0,
    ;
    assert((quotient * one + rest) * low == quotient * (low * one) + rest * low)
        by (nonlinear_arith);
    assert(-((quotient * one + rest) * low) == (-(quotient + 1)) * (low * one) + (one - rest)
        * low) by (nonlinear_arith);
    if !x.sign_set() {
        lemma_fundamental_div_mod_converse(x.scaled(), unit, quotient, rest * low);
    } else if rest == 0 {
        assert(-((quotient * one) * low) == (-quotient) * (low * one)) by (nonlinear_arith);
        lemma_fundamental_div_mod_converse(x.scaled(), unit, -quotient, 0);
    } else {
        assert((one - rest) * low < one * low) by (nonlinear_arith)
            requires
                0 < rest,
                low > 0,
        ;
        lemma_fundamental_div_mod_converse(
            x.scaled(),
            unit,
            -(quotient + 1),
            (one - rest) * low,
        );
    }
}

/// How far a finite scalar lies from zero, in steps of `2^-149`.
pub open spec fn steps_from_zero(x: Scalar) -> int {
    x.significand() * pow2(x.places())
}

/// Among finite scalars the one with the greater sign-less pattern lies
/// further from zero.
pub proof fn lemma_value_grows_with_magnitude(a: Scalar, b: Scalar)
    requires
        a.is_finite(),
        b.is_finite(),
        a.magnitude() < b.magnitude(),
    ensures
        0 <= steps_from_zero(a) < steps_from_zero(b),
{
    let hidden = HIDDEN_BIT as int;
    let low = pow2(a.places()) as int;
    let high = pow2(b.places()) as int;
    lemma_pow2_pos(a.places());
    lemma_pow2_pos(b.places());
    lemma_fundamental_div_mod(a.magnitude(), hidden);
    lemma_fundamental_div_mod(b.magnitude(), hidden);
    assert(0 <= a.significand() * low) by (nonlinear_arith)
        requires
            0 <= a.significand(),
            0 < low,
    ;
    if a.exponent_field() == b.exponent_field() {
        assert(a.significand() * low < b.significand() * low) by (nonlinear_arith)
            requires
                a.significand() < b.significand(),
                0 < low,
        ;
    } else {
        assert(a.exponent_field() < b.exponent_field()) by (nonlinear_arith)
            requires
                a.magnitude() < b.magnitude(),
                a.magnitude() == hidden * a.exponent_field() + a.fraction_field(),
                b.magnitude() == hidden * b.exponent_field() + b.fraction_field(),
                0 <= a.fraction_field() < hidden,
                0 <= b.fraction_field() < hidden,
                a.exponent_field() != b.exponent_field(),
        ;
        if a.exponent_field() == 0 {
            assert(hidden * 1 <= b.significand() * high) by (nonlinear_arith)
                requires
                    hidden <= b.significand(),
                    1 <= high,
            ;
            lemma2_to64();
        } else {
            lemma_pow2_unfold((a.places() + 1) as nat);
            if a.places() + 1 < b.places() {
                lemma_pow2_strictly_increases((a.places() + 1) as nat, b.places());
            }
            assert(a.significand() * low < hidden * high) by (nonlinear_arith)
                requires
                    a.significand() < 2 * hidden,
                    2 * low <= high,
                    0 < low,
                    0 < hidden,
            ;
            assert(hidden * high <= b.significand() * high) by (nonlinear_arith)
                requires
                    hidden <= b.significand(),
                    0 < high,
            ;
        }
    }
}

/// The order of scalars is the order of their values: of two finite scalars
/// one is less than the other exactly when its value is less, and they have
/// the same value exactly when they are worth the same number of steps.
pub proof fn lemma_order_agrees_with_value(a: Scalar, b: Scalar)
    requires
        a.is_finite(),
        b.is_finite(),
    ensures
        a.lt(b) <==> a.scaled() < b.scaled(),
        a.le(b) <==> a.scaled() <= b.scaled(),
        a.same_value(b) <==> a.scaled() == b.scaled(),
        a.is_non_negative() <==> a.scaled() >= 0,
{
    let zero = Scalar { bits: 0 };
    lemma2_to64();
    assert(zero.magnitude() == 0);
    assert(zero.significand() == 0);
    assert(0 * pow2(zero.places()) == 0);
    if a.magnitude() > 0 {
        lemma_value_grows_with_magnitude(zero, a);
    } else {
        assert(a.significand() == 0);
        assert(0 * pow2(a.places()) == 0);
    }
    if b.magnitude() > 0 {
        lemma_value_grows_with_magnitude(zero, b);
    } else {
        assert(b.significand() == 0);
        assert(0 * pow2(b.places()) == 0);
    }
    if a.magnitude() < b.magnitude() {
        lemma_value_grows_with_magnitude(a, b);
    } else if b.magnitude() < a.magnitude() {
        lemma_value_grows_with_magnitude(b, a);
    } else {
        assert(steps_from_zero(a) == steps_from_zero(b));
    }
}

/// One is worth `2^149` steps, and both zeros none.
pub proof fn lemma_value_of_zero_and_one()
    ensures
        (Scalar { bits: crate::scalar::ONE_BITS }).scaled() == pow2(149),
        (Scalar { bits: crate::scalar::ZERO_BITS }).scaled() == 0,
        (Scalar { bits: crate::scalar::SIGN_BIT }).scaled() == 0,
{
    let one = Scalar { bits: crate::scalar::ONE_BITS };
    assert(one.exponent_field() == 127);
    assert(one.fraction_field() == 0);
    lemma_pow2_adds(23, 126);
    lemma2_to64();
}

} // verus!
