//! Conway's Game of Life on a torus: a fixed-size grid whose edges wrap
//! around, with the transition rule, the neighbour count and the text frame
//! of a generation verified against a mathematical model of the board.

pub mod torus;
pub mod random;
pub mod grid;
pub mod render;
pub mod theorems;
