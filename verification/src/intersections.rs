//! Where a ray meets a shape, which of those places is seen, and the order in
//! which a world reports them.
use crate::scalar::{Scalar, INFINITY_BITS};
use crate::value::lemma_order_agrees_with_value;
use vstd::prelude::*;

verus! {

/// A place where a ray meets a shape: the parameter `t` along the ray, and the
/// shape, by its position in the list of shapes of its world.
///
/// `==` compares the pattern of `t` and the position.
#[derive(Clone, Copy, Debug, PartialEq, Eq, Structural)]
pub struct Intersection {
    pub t: Scalar,
    pub obj: usize,
}

/// Whether `s[i]` is the hit among the first `n` items of `s`: it lies ahead
/// of the ray's origin (`t >= 0`), none of them that lies ahead is nearer, and
/// of those that are equally near it comes first.
pub open spec fn is_hit_among(s: Seq<Intersection>, n: int, i: int) -> bool {
    &&& 0 <= i < n <= s.len()
    &&& s[i].t.is_non_negative()
    &&& forall|j: int| 0 <= j < n && (#[trigger] s[j]).t.is_non_negative() ==> s[i].t.le(s[j].t)
    &&& forall|j: int| 0 <= j < i && (#[trigger] s[j]).t.is_non_negative() ==> s[i].t.lt(s[j].t)
}

/// Whether `s[i]` is the hit among `s`.
pub open spec fn is_hit_at(s: Seq<Intersection>, i: int) -> bool {
    is_hit_among(s, s.len() as int, i)
}

/// The hit among `s`, if there is one.
pub open spec fn hit_of(s: Seq<Intersection>) -> Option<Intersection> {
    if exists|i: int| is_hit_at(s, i) {
        Some(s[choose|i: int| is_hit_at(s, i)])
    } else {
        None
    }
}

/// The rank by which a world orders its intersections: that of `t` as a
/// number, and above every number for a NaN.
pub open spec fn sort_key(t: Scalar) -> int {
    if t.is_nan() {
        INFINITY_BITS + 1
    } else {
        t.rank()
    }
}

/// Whether `output` holds the items of `input` in ascending order of `t`, the
/// item at `output[i]` being the one that stood at `input[origin[i]]`, and
/// items with the same `t` in the order in which they stood in `input`.
pub open spec fn is_ordering_by(
    output: Seq<Intersection>,
    input: Seq<Intersection>,
    origin: Seq<int>,
) -> bool {
    &&& output.len() == input.len()
    &&& origin.len() == input.len()
    &&& forall|i: int|
        0 <= i < output.len() ==> 0 <= #[trigger] origin[i] < input.len() && output[i]
            == input[origin[i]]
    &&& forall|i: int, j: int|
        0 <= i < j < output.len() ==> sort_key(#[trigger] output[i].t) < sort_key(
            #[trigger] output[j].t,
        ) || (sort_key(output[i].t) == sort_key(output[j].t) && origin[i] < origin[j])
}

/// Whether `output` is `input` sorted by `t`: ascending, NaNs last, and what
/// compares equal in the order of `input`.
pub open spec fn is_sorted_by_t(output: Seq<Intersection>, input: Seq<Intersection>) -> bool {
    exists|origin: Seq<int>| is_ordering_by(output, input, origin)
}

/// Whether `a` is placed after `b` when both are sorted.
fn sorts_after(a: Scalar, b: Scalar) -> (r: bool)
    ensures
        r == (sort_key(a) > sort_key(b)),
{
    if a.is_nan() {
        !b.is_nan()
    } else if b.is_nan() {
        false
    } else {
        b.lt(a)
    }
}

/// Where to insert an item with parameter `t` into the sorted `v`: behind
/// everything that does not sort after it.
fn insertion_point(v: &Vec<Intersection>, t: Scalar) -> (p: usize)
    requires
        forall|i: int, j: int|
            0 <= i < j < v.len() ==> sort_key(#[trigger] v[i].t) <= sort_key(#[trigger] v[j].t),
    ensures
        p <= v.len(),
        forall|i: int| 0 <= i < p ==> sort_key((#[trigger] v[i]).t) <= sort_key(t),
        forall|i: int| p <= i < v.len() ==> sort_key((#[trigger] v[i]).t) > sort_key(t),
{
    let mut p: usize = v.len();
    while p > 0 && sorts_after(v[p - 1].t, t)
        invariant
            p <= v.len(),
            forall|i: int| p <= i < v.len() ==> sort_key((#[trigger] v[i]).t) > sort_key(t),
        decreases p,
    {
        p = p - 1;
    }
    p
}

/// The given intersections sorted by `t`: ascending, the same `t` in the
/// order given, NaNs at the end.
pub fn sort_by_t(intersections: &Vec<Intersection>) -> (sorted: Vec<Intersection>)
    ensures
        is_sorted_by_t(sorted@, intersections@),
{
    let mut sorted: Vec<Intersection> = Vec::new();
    let ghost mut origin: Seq<int> = Seq::empty();
    let mut k: usize = 0;
    while k < intersections.len()
        invariant
            k <= intersections.len(),
            sorted.len() == k,
            origin.len() == k,
            forall|i: int|
                0 <= i < k ==> 0 <= #[trigger] origin[i] < k && sorted[i] == intersections[origin[i]],
            forall|i: int, j: int|
                0 <= i < j < k ==> sort_key(#[trigger] sorted[i].t) < sort_key(
                    #[trigger] sorted[j].t,
                ) || (sort_key(sorted[i].t) == sort_key(sorted[j].t) && origin[i] < origin[j]),
        decreases intersections.len() - k,
    {
        let x = intersections[k];
        let p = insertion_point(&sorted, x.t);
        sorted.insert(p, x);
        proof {
            origin = origin.insert(p as int, k as int);
        }
        k = k + 1;
    }
    proof {
        assert(is_ordering_by(sorted@, intersections@, origin));
    }
    sorted
}

impl Intersection {
    /// No intersection at all: what a miss returns.
    pub fn none() -> (v: Vec<Intersection>)
        ensures
            v@ == Seq::<Intersection>::empty(),
    {
        Vec::new()
    }

    /// The place at parameter `t` where a ray meets the sphere that stands at
    /// position `sphere` in its world.
    pub fn ray_sphere(sphere: usize, t: Scalar) -> (i: Intersection)
        ensures
            i == (Intersection { t, obj: sphere }),
    {
        Intersection { t, obj: sphere }
    }

    /// The place at parameter `t` where a ray meets the plane that stands at
    /// position `plane` in its world.
    pub fn ray_plane(plane: usize, t: Scalar) -> (i: Intersection)
        ensures
            i == (Intersection { t, obj: plane }),
    {
        Intersection { t, obj: plane }
    }

    /// The intersection that is seen: of those with `t >= 0` the one with the
    /// least `t`, and of several with the least `t` the first. None where no
    /// intersection has `t >= 0`; a NaN never has.
    pub fn hit<'a>(intersections: &'a [Intersection]) -> (h: Option<&'a Intersection>)
        ensures
            match h {
                Some(found) => hit_of(intersections@) == Some(*found),
                None => hit_of(intersections@).is_none(),
            },
            h.is_some() <==> exists|j: int|
                0 <= j < intersections@.len() && (#[trigger] intersections@[j]).t.is_non_negative(),
    {
        let mut best: Option<usize> = None;
        let mut i: usize = 0;
        while i < intersections.len()
            invariant
                i <= intersections.len(),
                match best {
                    Some(b) => is_hit_among(intersections@, i as int, b as int),
                    None => forall|j: int|
                        0 <= j < i ==> !(#[trigger] intersections@[j]).t.is_non_negative(),
                },
            decreases intersections.len() - i,
        {
            let candidate = &intersections[i];
            if candidate.t.is_non_negative() {
                match best {
                    None => {
                        best = Some(i);
                    },
                    Some(b) => {
                        if candidate.t.lt(intersections[b].t) {
                            best = Some(i);
                        }
                    },
                }
            }
            i = i + 1;
        }
        match best {
            Some(b) => {
                proof {
                    lemma_hit_is_unique(
                        intersections@,
                        b as int,
                        choose|i: int| is_hit_at(intersections@, i),
                    );
                }
                Some(&intersections[b])
            },
            None => None,
        }
    }
}

/// A list has at most one hit.
pub proof fn lemma_hit_is_unique(s: Seq<Intersection>, i: int, j: int)
    requires
        is_hit_at(s, i),
        is_hit_at(s, j),
    ensures
        i == j,
{
}

/// Where one of the first `n` items lies ahead of the ray's origin, there is a
/// hit among them.
pub proof fn lemma_hit_exists(s: Seq<Intersection>, n: int, v: int)
    requires
        0 <= v < n <= s.len(),
        s[v].t.is_non_negative(),
    ensures
        exists|i: int| is_hit_among(s, n, i),
    decreases n,
{
    let m = n - 1;
    if exists|w: int| 0 <= w < m && (#[trigger] s[w]).t.is_non_negative() {
        let w = choose|w: int| 0 <= w < m && (#[trigger] s[w]).t.is_non_negative();
        lemma_hit_exists(s, m, w);
        let b = choose|i: int| is_hit_among(s, m, i);
        if s[m].t.is_non_negative() && s[m].t.lt(s[b].t) {
            assert(is_hit_among(s, n, m));
        } else {
            assert(is_hit_among(s, n, b));
        }
    } else {
        assert(is_hit_among(s, n, m));
    }
}

/// A list has a hit exactly when one of its items has `t >= 0`.
pub proof fn lemma_hit_exists_iff_something_is_ahead(s: Seq<Intersection>)
    ensures
        hit_of(s).is_some() <==> exists|j: int|
            0 <= j < s.len() && (#[trigger] s[j]).t.is_non_negative(),
{
    if exists|j: int| 0 <= j < s.len() && (#[trigger] s[j]).t.is_non_negative() {
        let j = choose|j: int| 0 <= j < s.len() && (#[trigger] s[j]).t.is_non_negative();
        lemma_hit_exists(s, s.len() as int, j);
        let i = choose|i: int| is_hit_among(s, s.len() as int, i);
        assert(is_hit_at(s, i));
    }
}

/// What stands behind an ordering is a rearrangement: every position of
/// `input` is the origin of exactly one position of `output`.
pub proof fn lemma_ordering_rearranges(
    output: Seq<Intersection>,
    input: Seq<Intersection>,
    origin: Seq<int>,
)
    requires
        is_ordering_by(output, input, origin),
    ensures
        origin.no_duplicates(),
        forall|k: int| 0 <= k < input.len() ==> origin.contains(k),
{
    assert forall|i: int, j: int|
        0 <= i < origin.len() && 0 <= j < origin.len() && i != j implies origin[i] != origin[j] by {
        if j < i {
            assert(sort_key(output[j].t) < sort_key(output[i].t) || origin[j] < origin[i]);
        }
    }
    origin.unique_seq_to_set();
    let range = vstd::set_lib::set_int_range(0, input.len() as int);
    vstd::set_lib::lemma_int_range(0, input.len() as int);
    assert(origin.to_set().subset_of(range)) by {
        assert forall|k: int| origin.to_set().contains(k) implies range.contains(k) by {
            let i = choose|i: int| 0 <= i < origin.len() && origin[i] == k;
            assert(0 <= origin[i] < input.len());
        }
    }
    vstd::set_lib::lemma_set_subset_finite(range, origin.to_set());
    vstd::set_lib::lemma_subset_equality(origin.to_set(), range);
    assert forall|k: int| 0 <= k < input.len() implies origin.contains(k) by {
        assert(origin.to_set().contains(k));
    }
}

/// Sorting does not change what is hit: the hit among the sorted list is the
/// hit among the list as it was.
pub proof fn lemma_sorting_keeps_the_hit(output: Seq<Intersection>, input: Seq<Intersection>)
    requires
        is_sorted_by_t(output, input),
    ensures
        hit_of(output) == hit_of(input),
{
    let origin = choose|origin: Seq<int>| is_ordering_by(output, input, origin);
    lemma_ordering_rearranges(output, input, origin);
    lemma_hit_exists_iff_something_is_ahead(input);
    lemma_hit_exists_iff_something_is_ahead(output);
    if hit_of(input).is_some() {
        let k = choose|k: int| is_hit_at(input, k);
        assert(origin.contains(k));
        let i = choose|i: int| 0 <= i < origin.len() && origin[i] == k;
        // the item that was the hit is the hit still: what is ahead in the
        // sorted list was ahead before, and what stands before an equally
        // near item stood before it
        assert(is_hit_at(output, i));
        lemma_hit_is_unique(output, i, choose|i: int| is_hit_at(output, i));
    }
}

/// Two orderings of one list agree on the origin of each of their first `n`
/// positions.
proof fn lemma_orderings_agree(
    first: Seq<Intersection>,
    second: Seq<Intersection>,
    input: Seq<Intersection>,
    first_origin: Seq<int>,
    second_origin: Seq<int>,
    n: int,
)
    requires
        is_ordering_by(first, input, first_origin),
        is_ordering_by(second, input, second_origin),
        0 <= n <= input.len(),
    ensures
        forall|i: int| 0 <= i < n ==> first_origin[i] == second_origin[i],
    decreases n,
{
    if n > 0 {
        let p = n - 1;
        lemma_orderings_agree(first, second, input, first_origin, second_origin, p);
        lemma_ordering_rearranges(first, input, first_origin);
        lemma_ordering_rearranges(second, input, second_origin);
        let a = first_origin[p];
        let b = second_origin[p];
        if a != b {
            assert(second_origin.contains(a));
            let j = choose|j: int| 0 <= j < second_origin.len() && second_origin[j] == a;
            assert(first_origin.contains(b));
            let k = choose|k: int| 0 <= k < first_origin.len() && first_origin[k] == b;
            // below `p` the two orderings agree, so `a` and `b` both stand
            // behind `p` in the other ordering: each would come before the other
            if j > p && k > p {
                assert(sort_key(first[p].t) < sort_key(first[k].t) || (sort_key(first[p].t)
                    == sort_key(first[k].t) && a < b));
            }
        }
    }
}

/// A list has one sorted arrangement and no other.
pub proof fn lemma_sorted_is_unique(
    first: Seq<Intersection>,
    second: Seq<Intersection>,
    input: Seq<Intersection>,
)
    requires
        is_sorted_by_t(first, input),
        is_sorted_by_t(second, input),
    ensures
        first == second,
{
    let first_origin = choose|origin: Seq<int>| is_ordering_by(first, input, origin);
    let second_origin = choose|origin: Seq<int>| is_ordering_by(second, input, origin);
    lemma_orderings_agree(first, second, input, first_origin, second_origin, input.len() as int);
    assert forall|i: int| 0 <= i < first.len() implies first[i] == second[i] by {
        assert(second[i] == input[second_origin[i]]);
    }
}

/// In a sorted list no item is less than an item before it, and behind a NaN
/// stand only NaNs.
pub proof fn lemma_sorted_ascends(output: Seq<Intersection>, input: Seq<Intersection>)
    requires
        is_sorted_by_t(output, input),
    ensures
        forall|i: int, j: int|
            0 <= i < j < output.len() ==> !(#[trigger] output[j]).t.lt((#[trigger] output[i]).t),
        forall|i: int, j: int|
            0 <= i < j < output.len() && (#[trigger] output[i]).t.is_nan() ==> (
            #[trigger] output[j]).t.is_nan(),
{
    let origin = choose|origin: Seq<int>| is_ordering_by(output, input, origin);
    assert(is_ordering_by(output, input, origin));
}

/// In a sorted list the hit is the first item with `t >= 0`.
pub proof fn lemma_hit_of_sorted_is_first_ahead(
    output: Seq<Intersection>,
    input: Seq<Intersection>,
    i: int,
)
    requires
        is_sorted_by_t(output, input),
    ensures
        is_hit_at(output, i) <==> {
            &&& 0 <= i < output.len()
            &&& output[i].t.is_non_negative()
            &&& forall|j: int| 0 <= j < i ==> !(#[trigger] output[j]).t.is_non_negative()
        },
{
    let origin = choose|origin: Seq<int>| is_ordering_by(output, input, origin);
    if 0 <= i < output.len() && output[i].t.is_non_negative() {
        // what stands before `i` is not greater, and what stands behind not less
        assert forall|j: int| 0 <= j < output.len() && j != i implies (if j < i {
            sort_key(#[trigger] output[j].t) <= sort_key(output[i].t)
        } else {
            sort_key(output[i].t) <= sort_key(output[j].t)
        }) by {}
    }
}

/// The hit is the nearest place ahead, by value: its parameter is worth no
/// less than zero, and no more than that of any place ahead.
pub proof fn lemma_hit_is_nearest_ahead(s: Seq<Intersection>, i: int)
    requires
        is_hit_at(s, i),
        s[i].t.is_finite(),
    ensures
        s[i].t.scaled() >= 0,
        forall|j: int|
            0 <= j < s.len() && (#[trigger] s[j]).t.is_finite() && s[j].t.scaled() >= 0
                ==> s[i].t.scaled() <= s[j].t.scaled(),
{
    lemma_order_agrees_with_value(s[i].t, s[i].t);
    assert forall|j: int|
        0 <= j < s.len() && (#[trigger] s[j]).t.is_finite() && s[j].t.scaled()
            >= 0 implies s[i].t.scaled() <= s[j].t.scaled() by {
        lemma_order_agrees_with_value(s[j].t, s[i].t);
        lemma_order_agrees_with_value(s[i].t, s[j].t);
    }
}

} // verus!
