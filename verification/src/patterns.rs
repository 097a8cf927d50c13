//! The rule by which a pattern of two alternating parts chooses between them.
//!
//! Stripes, rings and a chequerboard all cut space into cells and give every
//! other cell to the first of their two parts. The cell of a point is a whole
//! number found from its coordinates in the pattern's own space: for stripes
//! the floor of `x`; for rings the floor of the distance from the `y` axis;
//! for a chequerboard the sum of the floors of the three coordinates. A cell
//! with an even number belongs to the first part.
use crate::scalar::Scalar;
use vstd::arithmetic::power2::{lemma_pow2_pos, pow2};
use vstd::prelude::*;

verus! {

/// Which of its two parts a pattern shows.
#[derive(Clone, Copy, Debug, PartialEq, Eq, Structural)]
pub enum Part {
    First,
    Second,
}

/// The part that owns the cell of `coordinate`: the first where the coordinate
/// is finite and its floor is even, else the second.
pub open spec fn part_of(coordinate: Scalar) -> Part {
    if coordinate.floor_is_even() {
        Part::First
    } else {
        Part::Second
    }
}

/// The part that a pattern shows where the number that decides it is
/// `coordinate`: the first part where the floor of the coordinate is even,
/// the second where it is odd, and the second also where the coordinate is
/// infinite or not a number.
///
/// Stripes pass the `x` of the point; rings pass the distance of the point
/// from the `y` axis; a chequerboard passes the sum of the floors of the three
/// coordinates.
pub fn part_at(coordinate: Scalar) -> (part: Part)
    ensures
        part == part_of(coordinate),
{
    if coordinate.floor_is_even() {
        Part::First
    } else {
        Part::Second
    }
}

/// Parts change at whole numbers and nowhere else: a finite coordinate that
/// lies between the whole number `n`, included, and `n + 1`, excluded, is in
/// the first part exactly when `n` is even.
pub proof fn lemma_parts_alternate_at_whole_numbers(coordinate: Scalar, n: int)
    requires
        coordinate.is_finite(),
        n * pow2(149) <= coordinate.scaled() < (n + 1) * pow2(149),
    ensures
        coordinate.floor() == n,
        part_of(coordinate) == if n % 2 == 0 {
            Part::First
        } else {
            Part::Second
        },
{
    let unit = pow2(149) as int;
    lemma_pow2_pos(149);
    assert((n + 1) * unit == n * unit + unit) by (nonlinear_arith);
    vstd::arithmetic::div_mod::lemma_fundamental_div_mod_converse(
        coordinate.scaled(),
        unit,
        n,
        coordinate.scaled() - n * unit,
    );
}

/// Two coordinates in neighbouring cells are in different parts, and two in
/// the same cell in the same part.
pub proof fn lemma_neighbouring_cells_differ(a: Scalar, b: Scalar)
    requires
        a.is_finite(),
        b.is_finite(),
    ensures
        a.floor() == b.floor() ==> part_of(a) == part_of(b),
        a.floor() + 1 == b.floor() ==> part_of(a) != part_of(b),
{
}

} // verus!
