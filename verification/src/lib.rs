//! A toroidal Game of Life engine.
//!
//! The grid is a torus: rows and columns wrap around at the edges, so every
//! cell has exactly eight neighbors. `tick` advances the whole grid by one
//! synchronous generation under the B3/S23 rule: a live cell survives with
//! two or three live neighbors, a dead cell is born with exactly three.

pub mod laws;
pub mod model;
pub mod universe;

pub use model::Cell;
pub use universe::CreationError;
pub use universe::Universe;
