//! Periodic (wrap-around) mapping from column and row to a row-major position.

use vstd::prelude::*;
use vstd::arithmetic::div_mod::*;

verus! {

/// Row-major position of column `col`, row `row` on a torus of `width` by
/// `height` cells.  Coordinates beyond the edges wrap around.
pub open spec fn periodic_index(col: int, row: int, width: int, height: int) -> int {
    (col % width) + width * (row % height)
}

/// A periodic position always falls inside the cell buffer.
pub proof fn lemma_periodic_index_in_range(col: int, row: int, width: int, height: int)
    requires
        width > 0,
        height > 0,
    ensures
        0 <= periodic_index(col, row, width, height) < width * height,
{
    let c = col % width;
    let r = row % height;
    assert(0 <= c < width);
    assert(0 <= r < height);
    assert(0 <= width * r && width * r + width <= width * height) by (nonlinear_arith)
        requires
            0 <= r < height,
            width > 0,
    ;
}

/// Wrapping the coordinates before mapping them changes nothing: the position
/// of `(col, row)` is the position of `(col mod width, row mod height)`, and
/// it is smaller than `width * height`.
pub proof fn lemma_periodic_index_wraps(col: int, row: int, width: int, height: int)
    requires
        col >= 0,
        row >= 0,
        width > 0,
        height > 0,
    ensures
        periodic_index(col, row, width, height) == periodic_index(
            col % width,
            row % height,
            width,
            height,
        ),
        periodic_index(col, row, width, height) < width * height,
{
    lemma_mod_twice(col, width);
    lemma_mod_twice(row, height);
    lemma_periodic_index_in_range(col, row, width, height);
}

/// Position of an in-range cell: no wrapping takes place.
pub proof fn lemma_periodic_index_identity(col: int, row: int, width: int, height: int)
    requires
        0 <= col < width,
        0 <= row < height,
    ensures
        periodic_index(col, row, width, height) == col + width * row,
        periodic_index(col, row, width, height) % width == col,
        periodic_index(col, row, width, height) / width == row,
{
    lemma_small_mod(col as nat, width as nat);
    lemma_small_mod(row as nat, height as nat);
    assert(width * row == row * width) by (nonlinear_arith);
    lemma_fundamental_div_mod_converse(col + width * row, width, row, col);
}

/// Maps a column and a row, either of which may lie beyond the grid's edges,
/// to the row-major position of the cell they wrap around to.
pub fn calc_idx_periodic(hor_idx: u32, vert_idx: u32, width: u32, height: u32) -> (idx: usize)
    requires
        width > 0,
        height > 0,
        width * height <= usize::MAX,
    ensures
        idx == periodic_index(hor_idx as int, vert_idx as int, width as int, height as int),
        idx < width * height,
{
    let col: usize = (hor_idx % width) as usize;
    let row: usize = (vert_idx % height) as usize;
    let w: usize = width as usize;
    proof {
        lemma_periodic_index_in_range(
            hor_idx as int,
            vert_idx as int,
            width as int,
            height as int,
        );
        assert(0 <= w * row && w * row + w <= width * height) by (nonlinear_arith)
            requires
                0 <= row < height,
                w == width,
                width > 0,
        ;
    }
    col + w * row
}

} // verus!
