//! A small media-pool library: sounds are indexed either in a flat directory
//! or in a packed archive, and a scheduling state machine decides, from a
//! sampled memory-pressure metric, when one of them is loaded and played.
//!
//! Pressure values and the unused `rating` placeholder are carried in
//! per-mille units (an integer in `[0, 1000]` standing for a fraction of 1),
//! and every wait interval is a number of milliseconds.

pub mod archive;
pub mod loader;
pub mod pressure;
pub mod schedule;
pub mod util;
