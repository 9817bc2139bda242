//! Conway's Game of Life on a bounded grid.
//!
//! `topology` states the bounded Moore neighbourhood of a cell; `engine` holds the
//! current generation with a neighbour table computed once, and advances it by the
//! B3/S23 rule; `laws` proves what holds of both.

pub mod topology;
pub mod engine;
pub mod laws;
