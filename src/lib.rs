//! Fixed-point motion model for bouncing and target-seeking sprites, with a
//! frame scheduler that drives it.
//!
//! Lengths are in thousandths of a surface unit, times in microseconds and
//! angles in micro-radians.

pub mod ball;
pub mod fixed;
pub mod game;
pub mod laws;
pub mod scheduler;
pub mod sprite;

pub use ball::Ball;
pub use game::BevyGame;
pub use scheduler::{Scheduler, Tick};
pub use sprite::{Bounds, Sprite, Target};
