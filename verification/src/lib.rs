//! Conway's Game of Life on a torus, with a bounded-memory detector that
//! recognises when the automaton has settled into a recurring state.
//!
//! Every item of this crate is verified with Verus; the few calls into other
//! crates are confined to small wrappers whose contracts are documented where
//! they stand.

pub mod cell;
pub mod detector;
pub mod digest;
pub mod grid;
pub mod report;
pub mod universe;

pub use crate::cell::Cell;
pub use crate::detector::Detector;
pub use crate::grid::Grid;
pub use crate::universe::Universe;
