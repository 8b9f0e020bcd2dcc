//! The grid: its cells, its dimensions and its step counter.

use crate::error::GridError;
use crate::index::{
    calc_idx_periodic, lemma_periodic_index_identity, lemma_periodic_index_wraps, periodic_index,
};
use crate::random::random_cells;
use crate::rule::{
    all_bits, evolved_cells, lemma_evolved_cells_are_bits, neighbor_count, next_cell, shifted_cell,
    shifted_row,
};
use vstd::prelude::*;
use vstd::slice::slice_to_vec;

verus! {

/// What a grid is, mathematically: its dimensions, its cells in row-major
/// order (the cell at column `col`, row `row` at position `col + width * row`)
/// and the number of generations since it was built or last reset.
pub struct GridView {
    pub width: nat,
    pub height: nat,
    pub cells: Seq<u8>,
    pub step: nat,
}

impl GridView {
    /// Both dimensions are positive, there is one cell for every position,
    /// and every cell is dead (0) or alive (1).
    pub open spec fn wf(self) -> bool {
        &&& self.width > 0
        &&& self.height > 0
        &&& self.width * self.height <= usize::MAX
        &&& self.cells.len() == self.width * self.height
        &&& all_bits(self.cells)
    }

    /// The value of the cell that `(col, row)` wraps around to.
    pub open spec fn cell(self, col: int, row: int) -> u8 {
        self.cells[periodic_index(col, row, self.width as int, self.height as int)]
    }

    /// The grid one generation later.
    pub open spec fn evolved(self) -> GridView {
        GridView {
            width: self.width,
            height: self.height,
            cells: evolved_cells(self.cells, self.width as int, self.height as int),
            step: self.step + 1,
        }
    }

    /// The grid with its cells replaced by `cells`.
    pub open spec fn with_cells(self, cells: Seq<u8>) -> GridView {
        GridView { width: self.width, height: self.height, cells, step: self.step }
    }
}

/// Position `i` holds the first value of `cells` that is neither 0 nor 1.
pub open spec fn is_first_invalid(cells: Seq<u8>, i: int) -> bool {
    &&& 0 <= i < cells.len()
    &&& cells[i] > 1
    &&& forall|j: int| 0 <= j < i ==> #[trigger] cells[j] <= 1
}

/// `verdict` is the answer to the question whether `cells` may become the
/// buffer of a grid of `width` by `height` cells.  It is `Ok` exactly for
/// `width * height` values that are all 0 or 1.  A buffer of another length
/// is refused with the length expected; one of the right length with the
/// first of its values above 1.
pub open spec fn state_verdict(
    width: nat,
    height: nat,
    cells: Seq<u8>,
    verdict: Result<(), GridError>,
) -> bool {
    match verdict {
        Ok(()) => cells.len() == width * height && all_bits(cells),
        Err(GridError::SizeMismatch { expected }) => {
            &&& cells.len() != width * height
            &&& expected == width * height
        },
        Err(GridError::InvalidCell { value }) => {
            &&& cells.len() == width * height
            &&& exists|i: int| is_first_invalid(cells, i) && cells[i] == value
        },
        Err(GridError::ZeroDimension) => false,
    }
}

/// A buffer is taken over exactly if it has the right length and holds only
/// the values 0 and 1.
pub proof fn lemma_refused_iff_invalid(
    width: nat,
    height: nat,
    cells: Seq<u8>,
    verdict: Result<(), GridError>,
)
    requires
        state_verdict(width, height, cells, verdict),
    ensures
        verdict is Err <==> (cells.len() != width * height || !all_bits(cells)),
{
    if let Err(GridError::InvalidCell { value }) = verdict {
        let i = choose|i: int| is_first_invalid(cells, i) && cells[i] == value;
        assert(cells[i] > 1);
    }
}

/// There is one answer only: two verdicts on the same buffer are equal.
pub proof fn lemma_state_verdict_unique(
    width: nat,
    height: nat,
    cells: Seq<u8>,
    first: Result<(), GridError>,
    second: Result<(), GridError>,
)
    requires
        state_verdict(width, height, cells, first),
        state_verdict(width, height, cells, second),
    ensures
        first == second,
{
    lemma_refused_iff_invalid(width, height, cells, first);
    lemma_refused_iff_invalid(width, height, cells, second);
    match (first, second) {
        (
            Err(GridError::InvalidCell { value: a }),
            Err(GridError::InvalidCell { value: b }),
        ) => {
            let i = choose|i: int| is_first_invalid(cells, i) && cells[i] == a;
            let j = choose|j: int| is_first_invalid(cells, j) && cells[j] == b;
            if i < j {
                assert(cells[i] <= 1);
            }
            if j < i {
                assert(cells[j] <= 1);
            }
            assert(a == b);
        },
        (
            Err(GridError::SizeMismatch { expected: a }),
            Err(GridError::SizeMismatch { expected: b }),
        ) => {
            assert(a == b);
        },
        (Ok(a), Ok(b)) => {
            assert(a == b);
        },
        _ => {},
    }
}

/// Reading back what was put in: a grid whose cells were replaced by a
/// buffer that was not refused holds exactly that buffer, at the step it was
/// at, with the dimensions it had, and is well formed.
pub proof fn lemma_with_cells_round_trip(grid: GridView, cells: Seq<u8>)
    requires
        grid.wf(),
        state_verdict(grid.width, grid.height, cells, Ok(())),
    ensures
        grid.with_cells(cells).cells == cells,
        grid.with_cells(cells).step == grid.step,
        grid.with_cells(cells).width == grid.width,
        grid.with_cells(cells).height == grid.height,
        grid.with_cells(cells).wf(),
{
}

/// A generation of a well-formed grid is a well-formed grid of the same
/// dimensions, one step later.
pub proof fn lemma_evolved_wf(grid: GridView)
    requires
        grid.wf(),
    ensures
        grid.evolved().wf(),
        grid.evolved().width == grid.width,
        grid.evolved().height == grid.height,
        grid.evolved().step == grid.step + 1,
{
    lemma_evolved_cells_are_bits(grid.cells, grid.width as int, grid.height as int);
}

/// The next generation depends on the cells and the dimensions alone: two
/// grids that agree on them agree on their cells one generation later,
/// whatever their steps.
pub proof fn lemma_evolved_deterministic(first: GridView, second: GridView)
    requires
        first.width == second.width,
        first.height == second.height,
        first.cells == second.cells,
    ensures
        first.evolved().cells == second.evolved().cells,
        first.evolved().width == second.evolved().width,
        first.evolved().height == second.evolved().height,
{
}

/// A toroidal grid of dead and alive cells.
pub struct Grid {
    cells: Vec<u8>,
    step: u32,
    width: u32,
    height: u32,
}

impl View for Grid {
    type V = GridView;

    closed spec fn view(&self) -> GridView {
        GridView {
            width: self.width as nat,
            height: self.height as nat,
            cells: self.cells@,
            step: self.step as nat,
        }
    }
}

/// Row `row` of a grid lies wholly inside its buffer.
pub proof fn lemma_row_in_range(width: int, height: int, row: int)
    requires
        width > 0,
        0 <= row < height,
    ensures
        0 <= width * row,
        width * row + width <= width * height,
{
    assert(0 <= width * row && width * row + width <= width * height) by (nonlinear_arith)
        requires
            width > 0,
            0 <= row < height,
    ;
}

/// Decides whether `cells` may become the buffer of a grid of `width` by
/// `height` cells.
fn check_state(width: u32, height: u32, cells: &[u8]) -> (verdict: Result<(), GridError>)
    requires
        width * height <= usize::MAX,
    ensures
        state_verdict(width as nat, height as nat, cells@, verdict),
{
    let expected: usize = (width as usize) * (height as usize);
    if cells.len() != expected {
        return Err(GridError::SizeMismatch { expected });
    }
    let mut i: usize = 0;
    while i < cells.len()
        invariant
            i <= cells.len(),
            cells@.len() == width * height,
            forall|j: int| 0 <= j < i ==> #[trigger] cells@[j] <= 1,
        decreases cells.len() - i,
    {
        let value: u8 = cells[i];
        if value > 1 {
            assert(is_first_invalid(cells@, i as int));
            return Err(GridError::InvalidCell { value });
        }
        i += 1;
    }
    Ok(())
}

/// What the cell `hor_shift` columns and `vert_shift` rows away from
/// `(col, row)` adds to the neighbour count of `(col, row)`.
fn shifted_cell_value(
    cells: &Vec<u8>,
    width: u32,
    height: u32,
    col: u32,
    row: u32,
    hor_shift: u32,
    vert_shift: u32,
) -> (value: u8)
    requires
        width > 0,
        height > 0,
        width * height <= usize::MAX,
        cells@.len() == width * height,
        all_bits(cells@),
    ensures
        value == shifted_cell(
            cells@,
            width as int,
            height as int,
            col as int,
            row as int,
            hor_shift as int,
            vert_shift as int,
        ),
        value <= 1,
{
    if hor_shift != 0 || vert_shift != 0 {
        let wrapped_col: u32 = ((col as u64 + hor_shift as u64) % (width as u64)) as u32;
        let wrapped_row: u32 = ((row as u64 + vert_shift as u64) % (height as u64)) as u32;
        proof {
            lemma_periodic_index_wraps(
                col + hor_shift,
                row + vert_shift,
                width as int,
                height as int,
            );
        }
        let idx: usize = calc_idx_periodic(wrapped_col, wrapped_row, width, height);
        cells[idx]
    } else {
        0
    }
}

/// Sum over the three horizontal offsets at one vertical offset.
fn shifted_row_value(
    cells: &Vec<u8>,
    width: u32,
    height: u32,
    col: u32,
    row: u32,
    vert_shift: u32,
) -> (value: u8)
    requires
        width > 0,
        height > 0,
        width * height <= usize::MAX,
        cells@.len() == width * height,
        all_bits(cells@),
    ensures
        value == shifted_row(
            cells@,
            width as int,
            height as int,
            col as int,
            row as int,
            vert_shift as int,
        ),
        value <= 3,
        vert_shift == 0 ==> value <= 2,
{
    let ahead: u8 = shifted_cell_value(cells, width, height, col, row, 1, vert_shift);
    let here: u8 = shifted_cell_value(cells, width, height, col, row, 0, vert_shift);
    let behind: u8 = shifted_cell_value(cells, width, height, col, row, width - 1, vert_shift);
    ahead + here + behind
}

/// Number of live neighbours of the cell at `(col, row)`.
fn count_neighbors(cells: &Vec<u8>, width: u32, height: u32, col: u32, row: u32) -> (count: u8)
    requires
        width > 0,
        height > 0,
        width * height <= usize::MAX,
        cells@.len() == width * height,
        all_bits(cells@),
    ensures
        count == neighbor_count(cells@, width as int, height as int, col as int, row as int),
        count <= 8,
{
    let below: u8 = shifted_row_value(cells, width, height, col, row, 1);
    let level: u8 = shifted_row_value(cells, width, height, col, row, 0);
    let above: u8 = shifted_row_value(cells, width, height, col, row, height - 1);
    below + level + above
}

impl Grid {
    /// What holds of every grid: see [`GridView::wf`].
    #[verifier::type_invariant]
    pub closed spec fn well_formed(&self) -> bool {
        self@.wf()
    }

    /// A grid of `width` by `height` cells that holds `cells`, at step 0.
    /// A zero dimension is refused first, then a buffer of the wrong length,
    /// then a value other than 0 and 1.
    pub fn from_cells(width: u32, height: u32, cells: Vec<u8>) -> (result: Result<Grid, GridError>)
        requires
            width * height <= usize::MAX,
        ensures
            match result {
                Ok(grid) => {
                    &&& width > 0
                    &&& height > 0
                    &&& state_verdict(width as nat, height as nat, cells@, Ok(()))
                    &&& grid@ == (GridView {
                        width: width as nat,
                        height: height as nat,
                        cells: cells@,
                        step: 0,
                    })
                    &&& grid@.wf()
                },
                Err(error) => if width == 0 || height == 0 {
                    error == GridError::ZeroDimension
                } else {
                    state_verdict(width as nat, height as nat, cells@, Err(error))
                },
            },
    {
        if width == 0 || height == 0 {
            return Err(GridError::ZeroDimension);
        }
        match check_state(width, height, cells.as_slice()) {
            Ok(()) => Ok(Grid { cells, step: 0, width, height }),
            Err(error) => Err(error),
        }
    }

    /// A grid of `width` by `height` cells, each dead or alive by chance, at
    /// step 0.  A zero dimension is refused, and nothing else is.
    pub fn new(width: u32, height: u32) -> (result: Result<Grid, GridError>)
        requires
            width * height <= usize::MAX,
        ensures
            match result {
                Ok(grid) => {
                    &&& width > 0
                    &&& height > 0
                    &&& grid@.width == width
                    &&& grid@.height == height
                    &&& grid@.step == 0
                    &&& grid@.wf()
                },
                Err(error) => (width == 0 || height == 0) && error == GridError::ZeroDimension,
            },
    {
        if width == 0 || height == 0 {
            return Err(GridError::ZeroDimension);
        }
        let mut rng = rand::thread_rng();
        let cells: Vec<u8> = random_cells(&mut rng, (width as usize) * (height as usize));
        Grid::from_cells(width, height, cells)
    }

    /// A grid of the dimensions of `other_grid`, at step 0.  Its cells are
    /// drawn afresh and handed to [`Grid::from_cells`]: none is taken from
    /// `other_grid`.
    pub fn new_like(other_grid: &Grid) -> (grid: Grid)
        ensures
            grid@.width == other_grid@.width,
            grid@.height == other_grid@.height,
            grid@.step == 0,
            grid@.wf(),
    {
        proof {
            use_type_invariant(other_grid);
        }
        let mut rng = rand::thread_rng();
        let count: usize = (other_grid.width as usize) * (other_grid.height as usize);
        let cells: Vec<u8> = random_cells(&mut rng, count);
        Grid::from_cells(other_grid.width, other_grid.height, cells).unwrap()
    }

    /// Back to step 0 with the cells replaced by `cells`, provided that
    /// `cells` holds width times height values that are all 0 or 1.
    /// Otherwise the grid stays as it is, step included.  The dimensions
    /// stay in either case.
    pub fn reset_with(&mut self, cells: Vec<u8>) -> (result: Result<(), GridError>)
        ensures
            state_verdict(old(self)@.width, old(self)@.height, cells@, result),
            result is Ok ==> final(self)@ == (GridView {
                width: old(self)@.width,
                height: old(self)@.height,
                cells: cells@,
                step: 0,
            }),
            result is Err ==> final(self)@ == old(self)@,
            final(self)@.wf(),
    {
        proof {
            use_type_invariant(&*self);
        }
        match check_state(self.width, self.height, cells.as_slice()) {
            Ok(()) => {
                self.step = 0;
                self.cells = cells;
                Ok(())
            },
            Err(error) => Err(error),
        }
    }

    /// Back to step 0, with every cell drawn afresh: the values drawn are
    /// handed to [`Grid::reset_with`].  The dimensions stay.
    pub fn reset(&mut self)
        ensures
            final(self)@.width == old(self)@.width,
            final(self)@.height == old(self)@.height,
            final(self)@.step == 0,
            final(self)@.wf(),
    {
        proof {
            use_type_invariant(&*self);
        }
        let mut rng = rand::thread_rng();
        let count: usize = (self.width as usize) * (self.height as usize);
        let cells: Vec<u8> = random_cells(&mut rng, count);
        let outcome = self.reset_with(cells);
        assert(outcome is Ok);
    }

    /// Applies the transition rule to every cell at once: one generation
    /// passes.  All neighbour counts are taken from the cells as they were
    /// before the call.
    pub fn evolve(&mut self)
        requires
            old(self)@.step < u32::MAX,
        ensures
            final(self)@ == old(self)@.evolved(),
            final(self)@.wf(),
    {
        proof {
            use_type_invariant(&*self);
        }
        let ghost before = self@;
        let ghost after = before.evolved();
        proof {
            lemma_evolved_wf(before);
        }
        let width: u32 = self.width;
        let height: u32 = self.height;
        let mut next: Vec<u8> = Vec::with_capacity(self.cells.len());
        let mut row: u32 = 0;
        while row < height
            invariant
                before.wf(),
                self@ == before,
                after == before.evolved(),
                after.cells.len() == before.cells.len(),
                before.width == width,
                before.height == height,
                row <= height,
                next@.len() == width * row,
                forall|k: int| 0 <= k < next@.len() ==> next@[k] == after.cells[k],
            decreases height - row,
        {
            let mut col: u32 = 0;
            while col < width
                invariant
                    before.wf(),
                    self@ == before,
                    after == before.evolved(),
                    after.cells.len() == before.cells.len(),
                    before.width == width,
                    before.height == height,
                    row < height,
                    col <= width,
                    next@.len() == width * row + col,
                    forall|k: int| 0 <= k < next@.len() ==> next@[k] == after.cells[k],
                decreases width - col,
            {
                let idx: usize = calc_idx_periodic(col, row, width, height);
                proof {
                    lemma_periodic_index_identity(
                        col as int,
                        row as int,
                        width as int,
                        height as int,
                    );
                }
                let count: u8 = count_neighbors(&self.cells, width, height, col, row);
                let current: u8 = self.cells[idx];
                assert(after.cells[idx as int] == next_cell(current, count as int));
                let value: u8 = if count < 2 || count > 3 {
                    0
                } else if count == 3 {
                    1
                } else {
                    current
                };
                next.push(value);
                col += 1;
            }
            row += 1;
            assert(width * (row - 1) + width == width * row) by (nonlinear_arith);
        }
        assert(next@ =~= after.cells);
        self.step = self.step + 1;
        self.cells = next;
    }

    /// Replaces the cells by a copy of `new_state`, provided that it holds
    /// width times height values that are all 0 or 1.  Otherwise the grid
    /// stays as it is.  The step counter stays in either case.
    pub fn set_state(&mut self, new_state: &[u8]) -> (result: Result<(), GridError>)
        ensures
            state_verdict(old(self)@.width, old(self)@.height, new_state@, result),
            result is Ok ==> final(self)@ == old(self)@.with_cells(new_state@),
            result is Err ==> final(self)@ == old(self)@,
            final(self)@.wf(),
    {
        proof {
            use_type_invariant(&*self);
        }
        match check_state(self.width, self.height, new_state) {
            Ok(()) => {
                self.cells = slice_to_vec(new_state);
                Ok(())
            },
            Err(error) => Err(error),
        }
    }

    /// As [`Grid::set_state`], but takes the buffer over instead of copying
    /// it.
    pub fn eat_state(&mut self, new_state: Vec<u8>) -> (result: Result<(), GridError>)
        ensures
            state_verdict(old(self)@.width, old(self)@.height, new_state@, result),
            result is Ok ==> final(self)@ == old(self)@.with_cells(new_state@),
            result is Err ==> final(self)@ == old(self)@,
            final(self)@.wf(),
    {
        proof {
            use_type_invariant(&*self);
        }
        match check_state(self.width, self.height, new_state.as_slice()) {
            Ok(()) => {
                self.cells = new_state;
                Ok(())
            },
            Err(error) => Err(error),
        }
    }

    /// The cells row by row, from the top: row `r` of the result holds the
    /// cells of columns 0 to width - 1 of row `r`.
    pub fn rows(&self) -> (rows: Vec<Vec<u8>>)
        ensures
            self@.wf(),
            rows@.len() == self@.height,
            forall|r: int|
                0 <= r < rows@.len() ==> #[trigger] rows@[r]@ == self@.cells.subrange(
                    self@.width * r,
                    self@.width * r + self@.width,
                ),
    {
        proof {
            use_type_invariant(self);
        }
        let mut rows: Vec<Vec<u8>> = Vec::new();
        let mut r: u32 = 0;
        while r < self.height
            invariant
                self@.wf(),
                r <= self.height,
                rows@.len() == r,
                forall|k: int|
                    0 <= k < rows@.len() ==> #[trigger] rows@[k]@ == self@.cells.subrange(
                        self@.width * k,
                        self@.width * k + self@.width,
                    ),
            decreases self.height - r,
        {
            let mut line: Vec<u8> = Vec::new();
            let mut c: u32 = 0;
            proof {
                lemma_row_in_range(self@.width as int, self@.height as int, r as int);
            }
            while c < self.width
                invariant
                    self@.wf(),
                    r < self.height,
                    c <= self.width,
                    self@.width * r + self@.width <= self@.cells.len(),
                    line@ == self@.cells.subrange(self@.width * r, self@.width * r + c),
                decreases self.width - c,
            {
                let idx: usize = calc_idx_periodic(c, r, self.width, self.height);
                proof {
                    lemma_periodic_index_identity(
                        c as int,
                        r as int,
                        self.width as int,
                        self.height as int,
                    );
                }
                line.push(self.cells[idx]);
                assert(line@ =~= self@.cells.subrange(self@.width * r, self@.width * r + c + 1));
                c += 1;
            }
            rows.push(line);
            r += 1;
        }
        rows
    }

    /// Number of columns.
    pub fn width(&self) -> (width: u32)
        ensures
            width == self@.width,
            self@.wf(),
    {
        proof {
            use_type_invariant(self);
        }
        self.width
    }

    /// Number of rows.
    pub fn height(&self) -> (height: u32)
        ensures
            height == self@.height,
            self@.wf(),
    {
        proof {
            use_type_invariant(self);
        }
        self.height
    }

    /// Number of generations since the grid was built or last reset.
    pub fn step(&self) -> (step: u32)
        ensures
            step == self@.step,
            self@.wf(),
    {
        proof {
            use_type_invariant(self);
        }
        self.step
    }

    /// The cells, in row-major order.
    pub fn state(&self) -> (cells: &Vec<u8>)
        ensures
            cells@ == self@.cells,
            self@.wf(),
    {
        proof {
            use_type_invariant(self);
        }
        &self.cells
    }

    /// The cell that `(col, row)` wraps around to.
    pub fn get_cell(&self, col: u32, row: u32) -> (value: u8)
        ensures
            value == self@.cell(col as int, row as int),
            value <= 1,
            self@.wf(),
    {
        proof {
            use_type_invariant(self);
        }
        let idx: usize = calc_idx_periodic(col, row, self.width, self.height);
        self.cells[idx]
    }
}

} // verus!
