//! The things on the field: the two paddles and the balls.

pub mod ball;
pub mod direction;
pub mod player;
