//! The order in which the pixels of an image are rendered.
//!
//! Rendering computes one colour per pixel, and no pixel depends on another.
//! What has to be right is that every pixel of the image is visited, once:
//! row after row from the top, and each row from the left.
use vstd::prelude::*;

verus! {

/// The pixels of an image: `hsize` columns by `vsize` rows. Pixel `(x, y)`
/// stands in column `x` of row `y`.
#[derive(Clone, Copy, Debug, PartialEq, Eq, Structural)]
pub struct PixelGrid {
    pub hsize: usize,
    pub vsize: usize,
}

/// A side of an image.
#[derive(Clone, Copy, Debug, PartialEq, Eq, Structural)]
pub enum Side {
    Width,
    Height,
}

impl PixelGrid {
    /// Whether `(x, y)` is a pixel of the image.
    pub open spec fn spec_contains(&self, x: int, y: int) -> bool {
        0 <= x < self.hsize && 0 <= y < self.vsize
    }

    /// The number of pixels.
    pub open spec fn count(&self) -> int {
        self.hsize * self.vsize
    }

    /// How many pixels are visited before `(x, y)`.
    pub open spec fn position(&self, x: int, y: int) -> int {
        y * self.hsize + x
    }

    /// The pixel before which `i` pixels are visited.
    pub open spec fn pixel(&self, i: int) -> (int, int) {
        (i % (self.hsize as int), i / (self.hsize as int))
    }

    /// The pixel visited first, if the image has any pixel.
    pub open spec fn spec_first(&self) -> Option<(usize, usize)> {
        if self.count() > 0 {
            Some((0usize, 0usize))
        } else {
            None
        }
    }

    /// The pixel visited after `(x, y)`, if `(x, y)` is not the last.
    pub open spec fn spec_next(&self, x: usize, y: usize) -> Option<(usize, usize)> {
        if x + 1 < self.hsize {
            Some(((x + 1) as usize, y))
        } else if y + 1 < self.vsize {
            Some((0usize, (y + 1) as usize))
        } else {
            None
        }
    }

    /// The pixel reached from the first by `k` steps, if the image has that
    /// many pixels and one more.
    pub open spec fn walk(&self, k: nat) -> Option<(usize, usize)>
        decreases k,
    {
        if k == 0 {
            self.spec_first()
        } else {
            match self.walk((k - 1) as nat) {
                Some((x, y)) => self.spec_next(x, y),
                None => None,
            }
        }
    }

    /// The pixels of an image of the given size.
    pub fn new(hsize: usize, vsize: usize) -> (grid: PixelGrid)
        ensures
            grid == (PixelGrid { hsize, vsize }),
    {
        PixelGrid { hsize, vsize }
    }

    /// The side of the image that the field of view spans: the width of an
    /// image that is at least as wide as it is high, else the height. The
    /// other side is shorter, and sees less.
    pub fn spanning_side(&self) -> (side: Side)
        ensures
            side == if self.hsize >= self.vsize {
                Side::Width
            } else {
                Side::Height
            },
    {
        if self.hsize >= self.vsize {
            Side::Width
        } else {
            Side::Height
        }
    }

    /// Whether `(x, y)` is a pixel of the image.
    pub fn contains(&self, x: usize, y: usize) -> (r: bool)
        ensures
            r == self.spec_contains(x as int, y as int),
    {
        x < self.hsize && y < self.vsize
    }

    /// The pixel to render first: the top left one. None for an image
    /// without pixels.
    #[verifier::when_used_as_spec(spec_first)]
    pub fn first(&self) -> (p: Option<(usize, usize)>)
        ensures
            p == self.spec_first(),
            p matches Some((x, y)) ==> self.spec_contains(x as int, y as int) && self.position(
                x as int,
                y as int,
            ) == 0,
            p.is_none() <==> self.count() == 0,
    {
        proof {
            lemma_count_is_positive(*self);
        }
        if self.hsize > 0 && self.vsize > 0 {
            Some((0, 0))
        } else {
            None
        }
    }

    /// The pixel to render after `(x, y)`: the next one of the row, or the
    /// first one of the next row. None after the last pixel.
    #[verifier::when_used_as_spec(spec_next)]
    pub fn next(&self, x: usize, y: usize) -> (p: Option<(usize, usize)>)
        requires
            self.spec_contains(x as int, y as int),
        ensures
            p == self.spec_next(x, y),
            p matches Some((nx, ny)) ==> self.spec_contains(nx as int, ny as int) && self.position(
                nx as int,
                ny as int,
            ) == self.position(x as int, y as int) + 1,
            p.is_none() <==> self.position(x as int, y as int) + 1 == self.count(),
    {
        proof {
            lemma_position_is_one_to_one(*self, x as int, y as int);
            assert((y + 1) * self.hsize == y * self.hsize + self.hsize) by (nonlinear_arith);
            if y + 1 < self.vsize {
                assert((y + 1) * self.hsize + self.hsize <= self.vsize * self.hsize)
                    by (nonlinear_arith)
                    requires
                        y + 2 <= self.vsize,
                ;
            } else {
                assert(self.vsize == y + 1);
            }
            assert(self.hsize * self.vsize == self.vsize * self.hsize) by (nonlinear_arith);
        }
        if x + 1 < self.hsize {
            Some((x + 1, y))
        } else if y + 1 < self.vsize {
            Some((0, y + 1))
        } else {
            None
        }
    }
}

/// An image has a pixel exactly when it has a column and a row.
pub proof fn lemma_count_is_positive(grid: PixelGrid)
    ensures
        grid.count() >= 0,
        grid.count() > 0 <==> grid.hsize > 0 && grid.vsize > 0,
{
    assert(grid.hsize * grid.vsize >= 0) by (nonlinear_arith);
    assert(grid.hsize * grid.vsize > 0 <==> grid.hsize > 0 && grid.vsize > 0) by (nonlinear_arith);
}

/// Every pixel has a place in the order, below the number of pixels, and is
/// the only pixel at its place.
pub proof fn lemma_position_is_one_to_one(grid: PixelGrid, x: int, y: int)
    requires
        grid.spec_contains(x, y),
    ensures
        0 <= grid.position(x, y) < grid.count(),
        grid.pixel(grid.position(x, y)) == (x, y),
{
    let h = grid.hsize as int;
    let v = grid.vsize as int;
    assert(0 <= y * h + x < h * v) by (nonlinear_arith)
        requires
            0 <= x < h,
            0 <= y < v,
    ;
    vstd::arithmetic::div_mod::lemma_fundamental_div_mod_converse(y * h + x, h, y, x);
}

/// Every place below the number of pixels is that of a pixel of the image.
pub proof fn lemma_every_position_is_taken(grid: PixelGrid, i: int)
    requires
        0 <= i < grid.count(),
    ensures
        grid.spec_contains(grid.pixel(i).0, grid.pixel(i).1),
        grid.position(grid.pixel(i).0, grid.pixel(i).1) == i,
{
    let h = grid.hsize as int;
    let v = grid.vsize as int;
    lemma_count_is_positive(grid);
    vstd::arithmetic::div_mod::lemma_fundamental_div_mod(i, h);
    vstd::arithmetic::div_mod::lemma_mod_bound(i, h);
    assert(h * (i / h) == (i / h) * h) by (nonlinear_arith);
    assert(0 <= i / h < v) by (nonlinear_arith)
        requires
            0 <= i < h * v,
            h > 0,
            i == (i / h) * h + i % h,
            0 <= i % h < h,
    ;
}

/// Rendering visits every pixel of the image once and nothing else: the walk
/// that starts at the first pixel and goes on from each pixel to the next
/// reaches, after `k` steps, the pixel at place `k`, and ends after the last.
pub proof fn lemma_walk_visits_every_pixel_once(grid: PixelGrid, k: nat)
    ensures
        k < grid.count() ==> (grid.walk(k) matches Some((x, y)) && grid.spec_contains(
            x as int,
            y as int,
        ) && grid.position(x as int, y as int) == k),
        k >= grid.count() ==> grid.walk(k).is_none(),
    decreases k,
{
    lemma_count_is_positive(grid);
    if k > 0 {
        let j = (k - 1) as nat;
        lemma_walk_visits_every_pixel_once(grid, j);
        if j < grid.count() {
            let (x, y) = grid.walk(j).unwrap();
            let h = grid.hsize as int;
            let v = grid.vsize as int;
            lemma_position_is_one_to_one(grid, x as int, y as int);
            assert((y + 1) * h == y * h + h) by (nonlinear_arith);
            assert(h * v == v * h) by (nonlinear_arith);
            if y + 1 < v {
                assert((y + 1) * h + h <= v * h) by (nonlinear_arith)
                    requires
                        y + 2 <= v,
                        h >= 0,
                ;
            } else {
                assert(v == y + 1);
            }
        }
    }
}

} // verus!
