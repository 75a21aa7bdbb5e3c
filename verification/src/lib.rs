//! Core logic of a small 2D side-scrolling platformer: a procedural map
//! generator with run-length constrained gaps, the game-mode state machine
//! that sequences the intro splash, the main menu and the gameplay mode, and
//! the character movement controller.
//!
//! Positions and times are modeled as integers (pixels and milliseconds);
//! the engine-facing shell converts at the boundary.

pub mod character;
pub mod gaps;
pub mod modes;
pub mod rng;
pub mod tiles;
