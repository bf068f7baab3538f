//! Conway's Game of Life on a fixed-size toroidal grid.
//!
//! The board stores a rectangular grid of alive/dead cells. Coordinates wrap
//! around both edges, so every cell has exactly eight neighbour lookups.
//! Generation advance follows the classic B3/S23 rule and always materializes
//! a fresh grid, so every cell is judged against the previous generation.

pub mod board;
pub mod laws;
