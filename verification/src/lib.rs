//! The logic of a Wayland compositor with an infinite canvas: which windows
//! there are and how they are stacked, what each output shows of the canvas,
//! what bindings and window rules do, how requests of clients are answered, and
//! what a frame consists of.
//!
//! Windows, surfaces, outputs and clients are known by number. Doubles are
//! carried and compared by their bit patterns; what is computed from them is
//! handed in.

pub mod config;
pub mod geometry;
pub mod glob;
pub mod handlers;
pub mod lift;
pub mod names;
pub mod numbers;
pub mod render;
pub mod scalar;
mod sets;
pub mod stack;
pub mod state;
