//! Conway's Game of Life on a fixed-size, densely stored board.
//!
//! The outermost ring of cells never sees its neighbours, so it is dead from
//! the first generation on. Every executable function carries a contract over
//! the mathematical model in [`model`].

pub mod board;
pub mod coords;
pub mod error;
pub mod life;
pub mod model;
