//! Core of a small updater: a progress-reporting download coordinator.
//!
//! The crate models the three parts of the design: a transfer engine that
//! streams chunks while reporting percentage deltas, a delayed observer gate
//! that decides whether a progress observer is ever materialized, and a
//! coordinator that wires the two together.

pub mod coord;
pub mod files;
pub mod gate;
pub mod launcher;
pub mod progress;
pub mod transfer;

pub use progress::ProgressTracker;
