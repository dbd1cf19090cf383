//! Burning Ship zoom animation: the integer side of the pipeline.
//!
//! `fractal` counts the steps of an orbit and lays escape times out as a
//! grid, `frames` numbers the frames of bursts and builds and saves a burst's
//! frames in parallel with each result kept at its frame's position, and
//! `painter` makes the palette and colours a grid into an RGB image buffer.
//! The per-pixel floating-point work is handed in by the caller.

pub mod fractal;
pub mod frames;
pub mod painter;
