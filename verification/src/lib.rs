//! Simulation core of a two-paddle ball game, in fixed-point integer arithmetic.
//!
//! Lengths are thousandths of a pixel, times are microseconds, speeds are
//! thousandths of a pixel per second, angles are millionths of a radian, and
//! ratios and colour channels are thousandths.

pub mod color;
pub mod constants;
pub mod effects;
pub mod entities;
pub mod game;
pub mod game_mode;
pub mod heading;
pub mod numeric;
pub mod powerups;
pub mod random;
pub mod rules;
pub mod vec2;
