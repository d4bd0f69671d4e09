//! A colored cellular-automaton engine: Conway's Game of Life on a bounded
//! grid, where each live cell carries a hue that newborn cells inherit as
//! the circular mean of their live neighbors' hues, with a deterministic
//! per-cell perturbation.
//!
//! All arithmetic is integer arithmetic: hues live in millionths of a turn,
//! the circular mean uses fixed-point trigonometry, and randomness comes
//! from a seeded generator owned by the grid, so every run is reproducible.

pub mod grid;
pub mod hue;
pub mod laws;
pub mod rng;
pub mod stamp;
pub mod surface;
pub mod trig;
pub mod view;

pub use grid::GameOfLife;
pub use hue::{Hue, Rgba, HUE_UNIT};
pub use rng::Rng64;
pub use stamp::Stamp;
pub use surface::Surface;
