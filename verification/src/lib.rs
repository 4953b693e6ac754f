//! Planning core for a digital microfluidic device: an electrode grid that
//! moves, merges and splits droplets.
//!
//! The crate is sequential. Whoever shares a `GridView` between threads puts
//! it behind a lock and calls in while holding it.

pub mod command;
pub mod diagnostic;
pub mod grid;
pub mod pi;
pub mod plan;
pub mod process;
