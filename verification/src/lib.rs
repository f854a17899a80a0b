//! Conway's Game of Life on a finite, non-wrapping grid.
//!
//! The grid keeps two equally sized buffers of cells and swaps their roles
//! after every generation. Everything outside the grid counts as dead.

pub mod cell;
pub mod random;
pub mod model;
pub mod grid;
pub mod laws;
