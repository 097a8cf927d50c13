//! Lights: whether something stands between a point and a light, and which
//! parts of the light of a lamp a surface sends to the eye.
use crate::color::Color;
use crate::intersections::{hit_of, lemma_sorting_keeps_the_hit, Intersection};
use crate::rays::Ray;
use crate::scalar::{Scalar, ZERO_BITS};
use crate::tuple::Tuple;
use crate::world::{
    are_answers_of, gathered, is_report_of, parameters, IntersectableShape, World,
};
use vstd::prelude::*;

verus! {

/// A light without size: it shines from `position` with `intensity` in every
/// direction.
///
/// `==` compares patterns.
#[derive(Clone, Copy, Debug, PartialEq, Eq, Structural)]
pub struct PointLight {
    pub intensity: Color,
    pub position: Tuple,
}

impl PointLight {
    /// The light of the given intensity at the given position.
    pub fn new(intensity: Color, position: Tuple) -> (light: PointLight)
        ensures
            light == (PointLight { intensity, position }),
    {
        PointLight { intensity, position }
    }
}

/// Whether a hit hides a light that is `distance_to_light` away along the ray:
/// there is a hit, and it is strictly nearer than the light.
pub open spec fn hides_light(hit: Option<Intersection>, distance_to_light: Scalar) -> bool {
    match hit {
        Some(h) => h.t.lt(distance_to_light),
        None => false,
    }
}

/// Whether a light is hidden from the origin of a ray that points at it, where
/// `intersections` are the places at which the ray meets the scene and the
/// light is `distance_to_light` away: the hit among the intersections is
/// strictly nearer than the light.
///
/// What lies behind the origin hides nothing, nor what lies at the distance of
/// the light or beyond it; and a distance that is a NaN leaves the light seen.
pub fn hidden_by(intersections: &[Intersection], distance_to_light: Scalar) -> (hidden: bool)
    ensures
        hidden == hides_light(hit_of(intersections@), distance_to_light),
{
    match Intersection::hit(intersections) {
        Some(h) => h.t.lt(distance_to_light),
        None => false,
    }
}

/// Whether the point from which `shadow_ray` starts lies in shadow of the
/// light at which the ray points and which is `distance_to_light` away: some
/// shape of the world is hit by the ray strictly before the light.
///
/// The shapes are asked where the ray meets them, and `hidden_by` decides on
/// their answers.
pub fn is_shadowed<S: IntersectableShape>(
    world: &World<S>,
    shadow_ray: Ray,
    distance_to_light: Scalar,
) -> (shadowed: bool)
    ensures
        exists|answers: Seq<Vec<Scalar>>|
            are_answers_of(answers, world.objects@, shadow_ray) && shadowed == hides_light(
                hit_of(gathered(parameters(answers), world.objects.len() as nat)),
                distance_to_light,
            ),
{
    let intersections = world.ray_intersection(shadow_ray);
    proof {
        let answers = choose|answers: Seq<Vec<Scalar>>|
            are_answers_of(answers, world.objects@, shadow_ray) && is_report_of(
                intersections@,
                parameters(answers),
                world.objects.len() as nat,
            );
        lemma_sorting_keeps_the_hit(
            intersections@,
            gathered(parameters(answers), world.objects.len() as nat),
        );
    }
    hidden_by(intersections.as_slice(), distance_to_light)
}

/// Where nothing of what a ray meets lies ahead of its origin and nearer than
/// the light, the light is seen; and where something does, it is hidden.
pub proof fn lemma_hidden_means_something_is_in_between(
    intersections: Seq<Intersection>,
    distance_to_light: Scalar,
)
    ensures
        hides_light(hit_of(intersections), distance_to_light) <==> exists|i: int|
            0 <= i < intersections.len() && (#[trigger] intersections[i]).t.is_non_negative()
                && intersections[i].t.lt(distance_to_light),
{
    crate::intersections::lemma_hit_exists_iff_something_is_ahead(intersections);
    if hit_of(intersections).is_some() {
        let h = choose|i: int| crate::intersections::is_hit_at(intersections, i);
        assert(intersections[h].t.is_non_negative());
        if exists|i: int|
            0 <= i < intersections.len() && (#[trigger] intersections[i]).t.is_non_negative()
                && intersections[i].t.lt(distance_to_light) {
            let i = choose|i: int|
                0 <= i < intersections.len() && (#[trigger] intersections[i]).t.is_non_negative()
                    && intersections[i].t.lt(distance_to_light);
            assert(intersections[h].t.le(intersections[i].t));
        }
    }
}

/// Whether two directions point to the same side, where `cosine` is the
/// cosine of the angle between them: it is not below zero. A cosine that is
/// not a number counts as not below zero.
pub open spec fn in_front(cosine: Scalar) -> bool {
    !cosine.lt((Scalar { bits: ZERO_BITS }))
}

/// The parts of the light of one lamp that a point of a surface sends to the
/// eye, besides the ambient part, which it always sends.
#[derive(Clone, Copy, Debug, PartialEq, Eq, Structural)]
pub struct LightParts {
    /// The part that the surface scatters.
    pub diffuse: bool,
    /// The part that the surface mirrors.
    pub specular: bool,
}

/// The parts of the light of a lamp that reach the eye. In shadow of the lamp
/// there is none, nor where the lamp stands behind the surface. Elsewhere the
/// surface scatters the light; and it mirrors it where, besides, the mirrored
/// ray points to the side of the eye.
///
/// `cos_light_angle` is the cosine of the angle between the normal of the
/// surface and the direction of the lamp, `cos_reflection_angle` that of the
/// angle between the mirrored ray and the direction of the eye.
pub open spec fn light_parts_of(
    is_shadowed: bool,
    cos_light_angle: Scalar,
    cos_reflection_angle: Scalar,
) -> LightParts {
    let lit = !is_shadowed && in_front(cos_light_angle);
    LightParts { diffuse: lit, specular: lit && in_front(cos_reflection_angle) }
}

/// Whether the normal of a surface points away from the eye, so that the ray
/// met the surface from inside: the cosine of the angle between the normal
/// and the direction of the eye is below zero.
pub fn is_inside(cos_eye_angle: Scalar) -> (inside: bool)
    ensures
        inside == !in_front(cos_eye_angle),
{
    cos_eye_angle.lt(Scalar::zero())
}

/// Whether the surface scatters the light of the lamp towards the eye: it
/// does unless it lies in shadow of the lamp or the lamp stands behind it.
pub fn scatters_light(is_shadowed: bool, cos_light_angle: Scalar) -> (scatters: bool)
    ensures
        forall|cos_reflection_angle: Scalar|
            scatters == (#[trigger] light_parts_of(
                is_shadowed,
                cos_light_angle,
                cos_reflection_angle,
            )).diffuse,
        scatters == (!is_shadowed && in_front(cos_light_angle)),
{
    !is_shadowed && !cos_light_angle.lt(Scalar::zero())
}

/// Whether the surface mirrors the light of the lamp towards the eye.
pub fn mirrors_light(
    is_shadowed: bool,
    cos_light_angle: Scalar,
    cos_reflection_angle: Scalar,
) -> (mirrors: bool)
    ensures
        mirrors == light_parts_of(is_shadowed, cos_light_angle, cos_reflection_angle).specular,
{
    scatters_light(is_shadowed, cos_light_angle) && !cos_reflection_angle.lt(Scalar::zero())
}

/// In shadow of a lamp, and where the lamp stands behind the surface, a point
/// gets the ambient part of its light and nothing else; and no surface
/// mirrors light that it does not scatter.
pub proof fn lemma_shadow_leaves_the_ambient_part(
    is_shadowed: bool,
    cos_light_angle: Scalar,
    cos_reflection_angle: Scalar,
)
    ensures
        is_shadowed ==> light_parts_of(is_shadowed, cos_light_angle, cos_reflection_angle) == (
        LightParts { diffuse: false, specular: false }),
        cos_light_angle.is_finite() && cos_light_angle.scaled() < 0 ==> light_parts_of(
            is_shadowed,
            cos_light_angle,
            cos_reflection_angle,
        ) == (LightParts { diffuse: false, specular: false }),
        light_parts_of(is_shadowed, cos_light_angle, cos_reflection_angle).specular
            ==> light_parts_of(is_shadowed, cos_light_angle, cos_reflection_angle).diffuse,
{
    if cos_light_angle.is_finite() {
        crate::value::lemma_order_agrees_with_value(cos_light_angle, (Scalar { bits: ZERO_BITS }));
        crate::value::lemma_value_of_zero_and_one();
    }
}

} // verus!
