//! What is known of a shape in its own space once the arithmetic is done.
//!
//! In its own space a sphere is the unit sphere round the origin, and a plane
//! is the plane through the origin that holds the `x` and the `z` axis. Where
//! a ray meets them is found by arithmetic; what is made of the numbers that
//! the arithmetic gives is decided here.
use crate::scalar::{Scalar, ONE_BITS, ZERO_BITS};
use crate::tuple::Tuple;
use vstd::prelude::*;

verus! {

/// The vector `(0, 1, 0)`: straight up.
pub open spec fn up() -> Tuple {
    Tuple {
        x: Scalar { bits: ZERO_BITS },
        y: Scalar { bits: ONE_BITS },
        z: Scalar { bits: ZERO_BITS },
        w: Scalar { bits: ZERO_BITS },
    }
}

/// The normal of a plane at `point`, in the plane's own space: straight up,
/// wherever on the plane the point lies.
pub fn plane_local_normal_at(point: Tuple) -> (normal: Tuple)
    ensures
        normal == up(),
        normal.is_vec(),
{
    crate::tuple::vec(Scalar::zero(), Scalar::one(), Scalar::zero())
}

/// The parameters at which a ray meets a sphere, from the discriminant of the
/// quadratic equation for them and its two roots: none where the discriminant
/// is below zero, else both roots in the order given.
pub open spec fn sphere_crossings_of(discriminant: Scalar, first: Scalar, second: Scalar) -> Seq<
    Scalar,
> {
    if discriminant.lt((Scalar { bits: ZERO_BITS })) {
        Seq::empty()
    } else {
        seq![first, second]
    }
}

/// The parameters at which a ray meets a sphere, from the discriminant of the
/// quadratic equation for them and its two roots.
///
/// A ray misses the sphere where the discriminant is below zero. Every other
/// ray meets it twice: a tangent at two equal parameters, and a ray that
/// starts inside the sphere or beyond it at parameters below zero, which are
/// kept.
pub fn sphere_crossings(discriminant: Scalar, first: Scalar, second: Scalar) -> (ts: Vec<Scalar>)
    ensures
        ts@ == sphere_crossings_of(discriminant, first, second),
{
    let mut ts: Vec<Scalar> = Vec::new();
    if !discriminant.lt(Scalar::zero()) {
        ts.push(first);
        ts.push(second);
    }
    proof {
        assert(ts@ =~= sphere_crossings_of(discriminant, first, second));
    }
    ts
}

/// The parameters at which a ray meets a plane: none where the ray runs
/// beside the plane or within it, else the one parameter `t` at which the ray
/// is level with the plane.
pub fn plane_crossings(runs_beside: bool, t: Scalar) -> (ts: Vec<Scalar>)
    ensures
        ts@ == if runs_beside {
            Seq::<Scalar>::empty()
        } else {
            seq![t]
        },
{
    let mut ts: Vec<Scalar> = Vec::new();
    if !runs_beside {
        ts.push(t);
    }
    proof {
        assert(ts@ =~= if runs_beside {
            Seq::<Scalar>::empty()
        } else {
            seq![t]
        });
    }
    ts
}

/// A sphere is met twice or not at all; and it is missed exactly when the
/// discriminant, where that is finite, is worth less than zero.
pub proof fn lemma_sphere_is_met_twice_or_not_at_all(
    discriminant: Scalar,
    first: Scalar,
    second: Scalar,
)
    ensures
        sphere_crossings_of(discriminant, first, second).len() == 0 || sphere_crossings_of(
            discriminant,
            first,
            second,
        ) == seq![first, second],
        discriminant.is_finite() ==> (sphere_crossings_of(discriminant, first, second).len() == 0
            <==> discriminant.scaled() < 0),
{
    if discriminant.is_finite() {
        crate::value::lemma_order_agrees_with_value(discriminant, (Scalar { bits: ZERO_BITS }));
        crate::value::lemma_value_of_zero_and_one();
    }
}

} // verus!
