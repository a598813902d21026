//! A configurable two-dimensional cellular automaton in the style of Conway's
//! Game of Life.

pub mod board;
pub mod generation;
pub mod laws;
pub mod rules;
pub mod session;
