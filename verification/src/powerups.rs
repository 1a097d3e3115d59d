//! Power-ups: what they are, and the manager that spawns, hands out and retires them.

pub mod manager;
pub mod powerup;
