//! Rays, and what can be asked where a ray meets it.
use crate::scalar::Scalar;
use crate::tuple::Tuple;
use vstd::prelude::*;

verus! {

/// A half-line: the points `origin + t * direction`.
///
/// `==` compares patterns.
#[derive(Clone, Copy, Debug, PartialEq, Eq, Structural)]
pub struct Ray {
    pub origin: Tuple,
    pub direction: Tuple,
}

impl Ray {
    /// Whether the two tuples may form a ray: the first a point, the second a
    /// vector.
    pub open spec fn spec_accepts(origin: Tuple, direction: Tuple) -> bool {
        origin.is_point() && direction.is_vec()
    }

    /// Whether the two tuples may form a ray.
    #[verifier::when_used_as_spec(spec_accepts)]
    pub fn accepts(origin: Tuple, direction: Tuple) -> (r: bool)
        ensures
            r == Ray::spec_accepts(origin, direction),
    {
        origin.is_point() && direction.is_vec()
    }

    /// The ray from `origin` along `direction`. Only a point can be an origin
    /// and only a vector a direction.
    pub fn new(origin: Tuple, direction: Tuple) -> (ray: Ray)
        requires
            Ray::accepts(origin, direction),
        ensures
            ray == (Ray { origin, direction }),
    {
        Ray { origin, direction }
    }

    /// The ray from `origin` along `direction`, or nothing where the two may
    /// not form a ray.
    pub fn checked(origin: Tuple, direction: Tuple) -> (ray: Option<Ray>)
        ensures
            ray == if Ray::accepts(origin, direction) {
                Some(Ray { origin, direction })
            } else {
                None
            },
    {
        if Ray::accepts(origin, direction) {
            Some(Ray::new(origin, direction))
        } else {
            None
        }
    }
}

/// Something that a ray of world space can meet.
///
/// `ray_intersection` returns the parameters `t` at which the ray meets the
/// implementor, in the order in which the implementor finds them. A parameter
/// may be negative (the place lies behind the origin of the ray), and the list
/// may be empty (a miss). Finding them is arithmetic and is left to the
/// implementor; nothing is assumed of what it returns.
pub trait RayIntersection {
    /// The parameters at which `ray` meets `self`.
    fn ray_intersection(&self, ray: Ray) -> Vec<Scalar>;
}

/// A ray takes a point and a vector in this order and in no other: where
/// `(origin, direction)` is accepted, `(direction, origin)` is not.
pub proof fn lemma_ray_rejects_swapped_arguments(origin: Tuple, direction: Tuple)
    requires
        Ray::accepts(origin, direction),
    ensures
        !Ray::accepts(direction, origin),
{
}

/// A ray is accepted exactly when its origin is a point and its direction a
/// vector; so two points never form a ray, nor two vectors.
pub proof fn lemma_ray_needs_a_point_and_a_vector(a: Tuple, b: Tuple)
    ensures
        Ray::accepts(a, b) <==> a.is_point() && b.is_vec(),
        a.is_point() && b.is_point() ==> !Ray::accepts(a, b),
        a.is_vec() && b.is_vec() ==> !Ray::accepts(a, b),
{
}

} // verus!
