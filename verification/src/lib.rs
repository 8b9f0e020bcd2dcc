//! Conway's Game of Life on a toroidal rectangular grid.
//!
//! The grid wraps around at its edges: the right neighbour of the last column
//! is the first column, and likewise for rows.  Every operation is specified
//! over the mathematical view of a grid, [`grid::GridView`].

pub mod decimal;
pub mod error;
pub mod grid;
pub mod index;
pub mod random;
pub mod render;
pub mod rule;

pub use error::GridError;
pub use grid::{Grid, GridView};
pub use index::calc_idx_periodic;
