//! Conway's Game of Life on a torus, over a bit-packed grid.

pub mod bitset;
pub mod error;
pub mod grid;
pub mod laws;
mod random;
pub mod universe;

pub use error::UniverseError;
pub use universe::Universe;
