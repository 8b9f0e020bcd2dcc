//! The grid drawn as text: a header with the dimensions and the step, then
//! one box per cell, a live cell filled and a dead one blank.

use crate::decimal::{decimal_text, push_decimal};
use crate::grid::{lemma_row_in_range, Grid, GridView};
use crate::index::lemma_periodic_index_identity;
use vstd::prelude::*;
use vstd::string::*;

verus! {

/// `piece`, `times` times in a row.
pub open spec fn repeated(piece: Seq<char>, times: nat) -> Seq<char>
    decreases times,
{
    if times == 0 {
        Seq::empty()
    } else {
        repeated(piece, (times - 1) as nat) + piece
    }
}

/// A horizontal border over `width` boxes: `left`, then `joint` between
/// each two boxes, then `right`.
pub open spec fn border_text(
    left: Seq<char>,
    joint: Seq<char>,
    right: Seq<char>,
    width: nat,
) -> Seq<char> {
    left + repeated(joint, (width - 1) as nat) + right
}

/// The box of one cell with the bar to its left: filled for a live cell,
/// blank otherwise.
pub open spec fn cell_text(value: u8) -> Seq<char> {
    if value == 1 {
        "┃ ■ "@
    } else {
        "┃   "@
    }
}

/// The boxes of the first `count` cells of row `row`.
pub open spec fn cells_text(grid: GridView, row: int, count: nat) -> Seq<char>
    decreases count,
{
    if count == 0 {
        Seq::empty()
    } else {
        cells_text(grid, row, (count - 1) as nat) + cell_text(
            grid.cells[grid.width * row + count - 1],
        )
    }
}

/// Row `row` with the border above it: the top border of the diagram above
/// the first row, a separating border above every other.
pub open spec fn row_text(grid: GridView, row: int) -> Seq<char> {
    (if row == 0 {
        border_text("┏━━━"@, "┳━━━"@, "┓\n"@, grid.width)
    } else {
        border_text("┣━━━"@, "╋━━━"@, "┫\n"@, grid.width)
    }) + cells_text(grid, row, grid.width) + "┃\n"@
}

/// The first `count` rows.
pub open spec fn rows_text(grid: GridView, count: nat) -> Seq<char>
    decreases count,
{
    if count == 0 {
        Seq::empty()
    } else {
        rows_text(grid, (count - 1) as nat) + row_text(grid, count - 1)
    }
}

/// The lines above the diagram: width, height and step.
pub open spec fn header_text(grid: GridView) -> Seq<char> {
    "Grid type: {\n\n    width: "@ + decimal_text(grid.width) + ", height: "@ + decimal_text(
        grid.height,
    ) + ", step: "@ + decimal_text(grid.step) + "\n\n"@
}

/// The whole text: header, rows, bottom border and closing brace.
pub open spec fn render_text(grid: GridView) -> Seq<char> {
    header_text(grid) + rows_text(grid, grid.height) + border_text(
        "┗━━━"@,
        "┻━━━"@,
        "┛\n\n}\n"@,
        grid.width,
    )
}

/// Appends a horizontal border over `width` boxes.
fn push_border(out: &mut String, left: &str, joint: &str, right: &str, width: u32)
    requires
        width > 0,
    ensures
        final(out)@ == old(out)@ + border_text(left@, joint@, right@, width as nat),
{
    out.append(left);
    let mut done: u32 = 0;
    while done < width - 1
        invariant
            width > 0,
            done <= width - 1,
            out@ == old(out)@ + left@ + repeated(joint@, done as nat),
        decreases width - 1 - done,
    {
        out.append(joint);
        done += 1;
        assert(out@ =~= old(out)@ + left@ + repeated(joint@, done as nat));
    }
    out.append(right);
    assert(out@ =~= old(out)@ + border_text(left@, joint@, right@, width as nat));
}

/// Appends row `row` of `grid` with the border above it.
fn push_row(out: &mut String, grid: &Grid, row: u32)
    requires
        row < grid@.height,
    ensures
        final(out)@ == old(out)@ + row_text(grid@, row as int),
{
    let width: u32 = grid.width();
    let height: u32 = grid.height();
    if row == 0 {
        push_border(out, "┏━━━", "┳━━━", "┓\n", width);
    } else {
        push_border(out, "┣━━━", "╋━━━", "┫\n", width);
    }
    let ghost bordered = out@;
    proof {
        lemma_row_in_range(width as int, height as int, row as int);
    }
    let mut col: u32 = 0;
    while col < width
        invariant
            grid@.wf(),
            grid@.width == width,
            grid@.height == height,
            row < height,
            col <= width,
            out@ == bordered + cells_text(grid@, row as int, col as nat),
        decreases width - col,
    {
        let value: u8 = grid.get_cell(col, row);
        proof {
            lemma_periodic_index_identity(col as int, row as int, width as int, height as int);
        }
        if value == 1 {
            out.append("┃ ■ ");
        } else {
            out.append("┃   ");
        }
        col += 1;
        assert(out@ =~= bordered + cells_text(grid@, row as int, col as nat));
    }
    out.append("┃\n");
    assert(out@ =~= old(out)@ + row_text(grid@, row as int));
}

impl Grid {
    /// The grid as a text diagram.  The grid itself stays as it is.
    pub fn render(&self) -> (text: String)
        ensures
            text@ == render_text(self@),
    {
        let width: u32 = self.width();
        let height: u32 = self.height();
        let mut out: String = String::new();
        out.append("Grid type: {\n\n    width: ");
        push_decimal(&mut out, width as u64);
        out.append(", height: ");
        push_decimal(&mut out, height as u64);
        out.append(", step: ");
        push_decimal(&mut out, self.step() as u64);
        out.append("\n\n");
        assert(out@ =~= header_text(self@));
        let mut row: u32 = 0;
        while row < height
            invariant
                self@.wf(),
                self@.height == height,
                row <= height,
                out@ == header_text(self@) + rows_text(self@, row as nat),
            decreases height - row,
        {
            push_row(&mut out, self, row);
            row += 1;
            assert(out@ =~= header_text(self@) + rows_text(self@, row as nat));
        }
        push_border(&mut out, "┗━━━", "┻━━━", "┛\n\n}\n", width);
        out
    }
}

} // verus!
