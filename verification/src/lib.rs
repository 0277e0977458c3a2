//! A toroidal Game of Life engine with verified state transitions.
//!
//! The engine draws no random numbers itself.  Whoever builds or advances a
//! universe hands it a tape of draws, so that every run can be repeated.

pub mod cell;
pub mod draws;
pub mod laws;
pub mod model;
pub mod pattern;
pub mod seeding;
pub mod universe;

pub use crate::cell::Cell;
pub use crate::universe::Universe;
