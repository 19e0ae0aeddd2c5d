//! Core of a small breakout-style arcade game: a bouncing ball, a
//! player-controlled paddle, and a destructible grid of tiles.
//!
//! All geometry lives on an integer coordinate grid: positions, sizes and
//! velocities are plain `i64` values in abstract coordinate units, and every
//! operation of the core (frame integration, circle-versus-rectangle
//! collision, tile destruction) is specified exactly over that grid. The
//! rendering and input layer around the core chooses the scale (for example
//! one unit per hundredth of a pixel) and converts at the boundary.

pub mod ball;
pub mod collision;
pub mod geometry;
pub mod player;
pub mod tiles;
