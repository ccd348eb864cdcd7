//! Conway's Game of Life on a toroidal board, with a fixed library of seed patterns.
//!
//! `rules` holds the mathematical model of a board and of one generation,
//! `grid` the double-buffered engine, `patterns` the named patterns and the
//! demonstration layout, and `laws` properties of the model that hold for every board.
pub mod grid;
pub mod laws;
pub mod patterns;
pub mod rules;

pub use grid::GameOfLife;
pub use patterns::Pattern;
pub use rules::rule;
