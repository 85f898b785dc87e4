//! A verified Conway's Game of Life: a square, non-wrapping grid, the
//! B3/S23 transition rule, a block-pixel renderer, and a run/pause
//! controller, ready to be driven by a windowing front end.

pub mod control;
pub mod patterns;
pub mod render;
pub mod seed;
pub mod world;
