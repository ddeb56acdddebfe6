//! Conway's Game of Life on a fixed-size toroidal grid.
//!
//! The engine owns the cell buffer and the grid dimensions, counts live
//! neighbors with wraparound at the edges, and advances the whole grid one
//! generation at a time from a snapshot of the previous one.

pub mod cell;
pub mod grid;
pub mod laws;
pub mod render;
