//! The scene: shapes and lights, and every place where a ray meets a shape.
use crate::intersections::{is_sorted_by_t, sort_by_t, Intersection};
use crate::lighting::PointLight;
use crate::rays::{Ray, RayIntersection};
use crate::scalar::Scalar;
use vstd::prelude::*;

verus! {

/// A shape that can stand in a world: all that a world asks of it is where a
/// ray meets it.
pub trait IntersectableShape: RayIntersection {

}

impl<T: RayIntersection> IntersectableShape for T {

}

/// The shapes of a scene and the lights that shine on them.
pub struct World<S: IntersectableShape> {
    pub objects: Vec<S>,
    pub lights: Vec<PointLight>,
}

/// The parameters `ts` as intersections with the shape at position `obj`.
pub open spec fn tagged(ts: Seq<Scalar>, obj: usize) -> Seq<Intersection> {
    Seq::new(ts.len(), |i: int| Intersection { t: ts[i], obj })
}

/// The answers of the first `n` shapes as one list of intersections: shape
/// after shape, and for each shape in the order of its answer.
pub open spec fn gathered(answers: Seq<Seq<Scalar>>, n: nat) -> Seq<Intersection>
    decreases n,
{
    if n == 0 {
        Seq::empty()
    } else {
        gathered(answers, (n - 1) as nat) + tagged(answers[n - 1], (n - 1) as usize)
    }
}

/// Whether `result` is what a world of `shapes` shapes reports when its shapes
/// answer `answers`: one answer per shape, all of their parameters, each with
/// the position of its shape, sorted by parameter.
pub open spec fn is_report_of(
    result: Seq<Intersection>,
    answers: Seq<Seq<Scalar>>,
    shapes: nat,
) -> bool {
    answers.len() == shapes && is_sorted_by_t(result, gathered(answers, shapes))
}

/// The lists of parameters that `answers` hold.
pub open spec fn parameters(answers: Seq<Vec<Scalar>>) -> Seq<Seq<Scalar>> {
    answers.map_values(|ts: Vec<Scalar>| ts@)
}

/// Whether `answers` are what the shapes `objects` answer when asked where
/// `ray` meets them: one answer per shape, `answers[k]` being one that the
/// shape at position `k` gives for `ray`.
pub open spec fn are_answers_of<S: IntersectableShape>(
    answers: Seq<Vec<Scalar>>,
    objects: Seq<S>,
    ray: Ray,
) -> bool {
    &&& answers.len() == objects.len()
    &&& forall|k: int|
        0 <= k < objects.len() ==> call_ensures(
            S::ray_intersection,
            (&objects[k], ray),
            #[trigger] answers[k],
        )
}

/// The answers of the shapes of a world, `answers[k]` being that of the shape
/// at position `k`, as the world reports them: all of them, sorted by
/// parameter, NaNs last, and equal parameters in the order of the shapes.
pub fn arrange(answers: &Vec<Vec<Scalar>>) -> (result: Vec<Intersection>)
    ensures
        is_report_of(result@, parameters(answers@), answers.len() as nat),
{
    let ghost all = parameters(answers@);
    let mut found: Vec<Intersection> = Vec::new();
    let mut k: usize = 0;
    while k < answers.len()
        invariant
            k <= answers.len(),
            all == parameters(answers@),
            found@ == gathered(all, k as nat),
        decreases answers.len() - k,
    {
        let ts = &answers[k];
        let ghost before = found@;
        let mut m: usize = 0;
        while m < ts.len()
            invariant
                m <= ts.len(),
                found@ == before + tagged(ts@, k).subrange(0, m as int),
            decreases ts.len() - m,
        {
            found.push(Intersection { t: ts[m], obj: k });
            proof {
                assert(tagged(ts@, k).subrange(0, m + 1) =~= tagged(ts@, k).subrange(
                    0,
                    m as int,
                ).push(tagged(ts@, k)[m as int]));
            }
            m = m + 1;
        }
        proof {
            assert(tagged(ts@, k).subrange(0, m as int) =~= tagged(ts@, k));
            assert(all[k as int] == ts@);
        }
        k = k + 1;
    }
    sort_by_t(&found)
}

impl<S: IntersectableShape> World<S> {
    /// The world of the given shapes and lights.
    pub fn new(objects: Vec<S>, lights: Vec<PointLight>) -> (world: World<S>)
        ensures
            world.objects == objects,
            world.lights == lights,
    {
        World { objects, lights }
    }

    /// Every place where `ray` meets a shape of the world, in ascending order
    /// of `t`; places with the same `t` stand in the order of the shapes.
    ///
    /// Each shape is asked once where `ray` meets it, in the order of the
    /// list, and what the shapes answer is reported as `arrange` arranges it.
    pub fn ray_intersection(&self, ray: Ray) -> (result: Vec<Intersection>)
        ensures
            exists|answers: Seq<Vec<Scalar>>|
                are_answers_of(answers, self.objects@, ray) && is_report_of(
                    result@,
                    parameters(answers),
                    self.objects.len() as nat,
                ),
    {
        let mut answers: Vec<Vec<Scalar>> = Vec::new();
        let mut k: usize = 0;
        while k < self.objects.len()
            invariant
                k <= self.objects.len(),
                answers.len() == k,
                forall|i: int|
                    0 <= i < k ==> call_ensures(
                        S::ray_intersection,
                        (&self.objects[i], ray),
                        #[trigger] answers[i],
                    ),
            decreases self.objects.len() - k,
        {
            answers.push(self.objects[k].ray_intersection(ray));
            k = k + 1;
        }
        let result = arrange(&answers);
        proof {
            assert(are_answers_of(answers@, self.objects@, ray));
        }
        result
    }
}

/// A report names shapes of the world only, and is in ascending order: no
/// item of it is less than an item before it, and behind a NaN stand only
/// NaNs.
pub proof fn lemma_report_is_sorted_and_names_shapes(
    result: Seq<Intersection>,
    answers: Seq<Seq<Scalar>>,
    shapes: nat,
)
    requires
        is_report_of(result, answers, shapes),
        shapes <= usize::MAX,
    ensures
        forall|i: int| 0 <= i < result.len() ==> (#[trigger] result[i]).obj < shapes,
        forall|i: int, j: int|
            0 <= i < j < result.len() ==> !(#[trigger] result[j]).t.lt((#[trigger] result[i]).t),
        forall|i: int, j: int|
            0 <= i < j < result.len() && (#[trigger] result[i]).t.is_nan() ==> (
            #[trigger] result[j]).t.is_nan(),
{
    let input = gathered(answers, shapes);
    crate::intersections::lemma_sorted_ascends(result, input);
    lemma_gathered_names_shapes(answers, shapes);
    let origin = choose|origin: Seq<int>|
        crate::intersections::is_ordering_by(result, input, origin);
    assert forall|i: int| 0 <= i < result.len() implies (#[trigger] result[i]).obj < shapes by {
        assert(result[i] == input[origin[i]]);
    }
}

/// What is gathered from the first `n` shapes names none but them.
pub proof fn lemma_gathered_names_shapes(answers: Seq<Seq<Scalar>>, n: nat)
    requires
        n <= usize::MAX,
    ensures
        forall|i: int|
            0 <= i < gathered(answers, n).len() ==> (#[trigger] gathered(answers, n)[i]).obj < n,
    decreases n,
{
    if n > 0 {
        let before = gathered(answers, (n - 1) as nat);
        let last = tagged(answers[n - 1], (n - 1) as usize);
        lemma_gathered_names_shapes(answers, (n - 1) as nat);
        assert forall|i: int| 0 <= i < gathered(answers, n).len() implies (#[trigger] gathered(
            answers,
            n,
        )[i]).obj < n by {
            if i < before.len() {
                assert(gathered(answers, n)[i] == before[i]);
            } else {
                assert(gathered(answers, n)[i] == last[i - before.len()]);
            }
        }
    }
}

} // verus!
