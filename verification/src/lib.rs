//! Conway's Game of Life on a toroidal grid.
//!
//! The grid is an immutable-per-generation two-dimensional boolean field; each
//! generation is computed from the previous one by the standard B3/S23 rule
//! with eight-neighbour toroidal wraparound.

pub mod frame;
pub mod grid;
pub mod rng;
