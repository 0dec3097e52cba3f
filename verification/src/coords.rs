//! Cell coordinates and their mapping to positions in row-major storage.

use vstd::arithmetic::div_mod::{lemma_fundamental_div_mod, lemma_fundamental_div_mod_converse};
use vstd::arithmetic::mul::lemma_mul_inequality;
use vstd::prelude::*;

verus! {

/// The position of a cell: field `0` is the column `x`, field `1` the row `y`.
#[derive(Clone, Copy, Debug, PartialEq, Eq, Structural)]
pub struct Coords(pub usize, pub usize);

/// The row-major position of the cell in column `x` and row `y` where each row
/// holds `width` cells.
pub open spec fn linear_index(x: int, y: int, width: int) -> int {
    x + y * width
}

/// The column of the cell stored at `index`.
pub open spec fn column_of(index: int, width: int) -> int {
    index % width
}

/// The row of the cell stored at `index`.
pub open spec fn row_of(index: int, width: int) -> int {
    index / width
}

/// The coordinates of the cell stored at `index`, as machine integers.
pub open spec fn coords_at(index: int, width: int) -> Coords {
    Coords(column_of(index, width) as usize, row_of(index, width) as usize)
}

/// Splitting a position into column and row and joining them again gives the
/// position back; the column lies within the row and the row is not negative.
pub proof fn lemma_split_then_join(index: int, width: int)
    requires
        0 <= index,
        0 < width,
    ensures
        0 <= column_of(index, width) < width,
        0 <= row_of(index, width) <= index,
        linear_index(column_of(index, width), row_of(index, width), width) == index,
{
    lemma_fundamental_div_mod(index, width);
    assert(0 <= index / width <= index) by (nonlinear_arith)
        requires
            0 <= index,
            0 < width,
    ;
    assert(width * (index / width) == (index / width) * width) by (nonlinear_arith);
}

/// Joining a column and a row into a position and splitting it again gives
/// both back.
pub proof fn lemma_join_then_split(x: int, y: int, width: int)
    requires
        0 <= x < width,
        0 <= y,
    ensures
        0 <= linear_index(x, y, width),
        column_of(linear_index(x, y, width), width) == x,
        row_of(linear_index(x, y, width), width) == y,
{
    assert(0 <= y * width) by (nonlinear_arith)
        requires
            0 <= y,
            0 < width,
    ;
    assert(width * y == y * width) by (nonlinear_arith);
    lemma_fundamental_div_mod_converse(x + y * width, width, y, x);
}

/// Every cell inside a `width` by `height` rectangle has a position below
/// `width * height`.
pub proof fn lemma_index_in_bounds(x: int, y: int, width: int, height: int)
    requires
        0 <= x < width,
        0 <= y < height,
    ensures
        0 <= linear_index(x, y, width) < width * height,
{
    assert(0 <= y * width) by (nonlinear_arith)
        requires
            0 <= y,
            0 < width,
    ;
    assert((y + 1) * width <= height * width) by {
        lemma_mul_inequality(y + 1, height, width);
    }
    assert((y + 1) * width == y * width + width) by (nonlinear_arith);
    assert(height * width == width * height) by (nonlinear_arith);
}

/// Every position below `width * height` belongs to a cell inside the
/// rectangle.
pub proof fn lemma_coords_in_bounds(index: int, width: int, height: int)
    requires
        0 <= index < width * height,
        0 < width,
    ensures
        0 <= column_of(index, width) < width,
        0 <= row_of(index, width) < height,
{
    lemma_split_then_join(index, width);
    let row = row_of(index, width);
    if row >= height {
        assert(row * width >= height * width) by {
            lemma_mul_inequality(height, row, width);
        }
        assert(height * width == width * height) by (nonlinear_arith);
    }
}

impl Coords {
    /// The coordinates of the cell stored at `index` in rows of
    /// `scanline_width` cells.
    pub fn from_index(index: usize, scanline_width: usize) -> (coords: Coords)
        requires
            scanline_width > 0,
        ensures
            coords == coords_at(index as int, scanline_width as int),
            coords.0 == column_of(index as int, scanline_width as int),
            coords.1 == row_of(index as int, scanline_width as int),
    {
        proof {
            lemma_split_then_join(index as int, scanline_width as int);
        }
        Coords(index % scanline_width, index / scanline_width)
    }

    /// The row-major position of this cell in rows of `scanline_width` cells.
    pub fn as_index(&self, scanline_width: usize) -> (index: usize)
        requires
            linear_index(self.0 as int, self.1 as int, scanline_width as int) <= usize::MAX,
        ensures
            index == linear_index(self.0 as int, self.1 as int, scanline_width as int),
    {
        assert(0 <= self.1 * scanline_width) by (nonlinear_arith);
        self.0 + self.1 * scanline_width
    }
}

} // verus!
