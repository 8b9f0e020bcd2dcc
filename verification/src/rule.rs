//! The transition rule, stated over plain sequences of cell values.

use crate::index::{
    lemma_periodic_index_identity, lemma_periodic_index_in_range, periodic_index,
};
use vstd::prelude::*;

verus! {

/// Every value of `cells` is dead (0) or alive (1).
pub open spec fn all_bits(cells: Seq<u8>) -> bool {
    forall|i: int| 0 <= i < cells.len() ==> #[trigger] cells[i] <= 1
}

/// What the cell at `(col + hor_shift, row + vert_shift)`, wrapped around the
/// edges, adds to the neighbour count of `(col, row)`.  A pair of offsets that
/// are both zero designates the cell itself and adds nothing.
pub open spec fn shifted_cell(
    cells: Seq<u8>,
    width: int,
    height: int,
    col: int,
    row: int,
    hor_shift: int,
    vert_shift: int,
) -> int {
    if hor_shift != 0 || vert_shift != 0 {
        cells[periodic_index(col + hor_shift, row + vert_shift, width, height)] as int
    } else {
        0
    }
}

/// Sum over the horizontal offsets `1, 0, width - 1` of what the cells at
/// vertical offset `vert_shift` add to the count of `(col, row)`.
pub open spec fn shifted_row(
    cells: Seq<u8>,
    width: int,
    height: int,
    col: int,
    row: int,
    vert_shift: int,
) -> int {
    shifted_cell(cells, width, height, col, row, 1, vert_shift) + shifted_cell(
        cells,
        width,
        height,
        col,
        row,
        0,
        vert_shift,
    ) + shifted_cell(cells, width, height, col, row, width - 1, vert_shift)
}

/// Number of live neighbours of `(col, row)` on the torus: the sum over the
/// horizontal offsets `1, 0, width - 1` combined with the vertical offsets
/// `1, 0, height - 1`, where `width - 1` and `height - 1` stand for one step
/// back.  On a grid one cell wide or high those offsets are zero themselves,
/// and paired with a zero offset they add nothing either.
pub open spec fn neighbor_count(cells: Seq<u8>, width: int, height: int, col: int, row: int) -> int {
    shifted_row(cells, width, height, col, row, 1) + shifted_row(cells, width, height, col, row, 0)
        + shifted_row(cells, width, height, col, row, height - 1)
}

/// A single offset pair adds at most one to a count.
pub proof fn lemma_shifted_cell_range(
    cells: Seq<u8>,
    width: int,
    height: int,
    col: int,
    row: int,
    hor_shift: int,
    vert_shift: int,
)
    requires
        width > 0,
        height > 0,
        cells.len() == width * height,
        all_bits(cells),
    ensures
        0 <= shifted_cell(cells, width, height, col, row, hor_shift, vert_shift) <= 1,
{
    lemma_periodic_index_in_range(col + hor_shift, row + vert_shift, width, height);
}

/// A cell has between zero and eight live neighbours.
pub proof fn lemma_neighbor_count_range(
    cells: Seq<u8>,
    width: int,
    height: int,
    col: int,
    row: int,
)
    requires
        width > 0,
        height > 0,
        cells.len() == width * height,
        all_bits(cells),
    ensures
        0 <= neighbor_count(cells, width, height, col, row) <= 8,
{
    lemma_shifted_cell_range(cells, width, height, col, row, 1, 1);
    lemma_shifted_cell_range(cells, width, height, col, row, 0, 1);
    lemma_shifted_cell_range(cells, width, height, col, row, width - 1, 1);
    lemma_shifted_cell_range(cells, width, height, col, row, 1, 0);
    lemma_shifted_cell_range(cells, width, height, col, row, width - 1, 0);
    lemma_shifted_cell_range(cells, width, height, col, row, 1, height - 1);
    lemma_shifted_cell_range(cells, width, height, col, row, 0, height - 1);
    lemma_shifted_cell_range(cells, width, height, col, row, width - 1, height - 1);
}

/// On a grid at least two cells wide and high the count is the sum of the
/// eight cells around `(col, row)`: one column ahead, the same column and one
/// column back, each one row ahead, in the same row and one row back, the
/// cell itself left out.
pub proof fn lemma_neighbor_count_is_sum_of_eight(
    cells: Seq<u8>,
    width: int,
    height: int,
    col: int,
    row: int,
)
    requires
        width >= 2,
        height >= 2,
    ensures
        neighbor_count(cells, width, height, col, row) == cells[periodic_index(
            col + 1,
            row + 1,
            width,
            height,
        )] + cells[periodic_index(col, row + 1, width, height)] + cells[periodic_index(
            col + width - 1,
            row + 1,
            width,
            height,
        )] + cells[periodic_index(col + 1, row, width, height)] + cells[periodic_index(
            col + width - 1,
            row,
            width,
            height,
        )] + cells[periodic_index(col + 1, row + height - 1, width, height)]
            + cells[periodic_index(col, row + height - 1, width, height)] + cells[periodic_index(
            col + width - 1,
            row + height - 1,
            width,
            height,
        )],
{
}

/// The next value of a cell that is `current` now and has `count` live
/// neighbours: it dies of isolation below two and of overcrowding above
/// three, lives with exactly three, and stays as it is with exactly two.
pub open spec fn next_cell(current: u8, count: int) -> u8 {
    if count < 2 || count > 3 {
        0
    } else if count == 3 {
        1
    } else {
        current
    }
}

/// The next generation of a whole buffer: every cell takes its next value
/// from the neighbour counts of the buffer as it was.
pub open spec fn evolved_cells(cells: Seq<u8>, width: int, height: int) -> Seq<u8> {
    Seq::new(
        cells.len(),
        |k: int| next_cell(cells[k], neighbor_count(cells, width, height, k % width, k / width)),
    )
}

/// The cell at column `col`, row `row` of the next generation is the next
/// value of the cell that stands there now, given the live neighbours that
/// it has now.
pub proof fn lemma_evolved_cell(cells: Seq<u8>, width: int, height: int, col: int, row: int)
    requires
        0 <= col < width,
        0 <= row < height,
        cells.len() == width * height,
    ensures
        0 <= periodic_index(col, row, width, height) < cells.len(),
        evolved_cells(cells, width, height)[periodic_index(col, row, width, height)] == next_cell(
            cells[periodic_index(col, row, width, height)],
            neighbor_count(cells, width, height, col, row),
        ),
{
    lemma_periodic_index_identity(col, row, width, height);
    lemma_periodic_index_in_range(col, row, width, height);
}

/// A generation of dead and alive cells is followed by one of the same
/// length that again holds only dead and alive cells.
pub proof fn lemma_evolved_cells_are_bits(cells: Seq<u8>, width: int, height: int)
    requires
        all_bits(cells),
    ensures
        evolved_cells(cells, width, height).len() == cells.len(),
        all_bits(evolved_cells(cells, width, height)),
{
    let next = evolved_cells(cells, width, height);
    assert forall|i: int| 0 <= i < next.len() implies #[trigger] next[i] <= 1 by {
        assert(cells[i] <= 1);
    }
}

} // verus!
