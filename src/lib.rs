//! Conway's Game of Life over a sparse set of living cells.
pub mod game;
