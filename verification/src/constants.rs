//! The configuration of the game, fixed at compile time.

use vstd::prelude::*;
use crate::color::Color;

verus! {

/// Width of the field.
pub const SCREEN_WIDTH: i64 = 1_000_000;

/// Height of the field.
pub const SCREEN_HEIGHT: i64 = 700_000;

/// Width of a paddle.
pub const PLAYER_WIDTH: i64 = 20_000;

/// Height of a paddle without modifiers: a quarter of the field.
pub const PLAYER_HEIGHT: i64 = 175_000;

/// Speed of a paddle without modifiers.
pub const PLAYER_SPEED: i64 = 300_000;

/// Gap between a paddle and its edge of the field.
pub const PLAYER_PADDING: i64 = 5_000;

/// Largest height of a paddle: eight tenths of the field.
pub const PLAYER_MAX_HEIGHT: i64 = 560_000;

pub const BALL_RADIUS: i64 = 10_000;

/// Speed of a ball at the start of a round.
pub const BALL_SPEED: i64 = 400_000;

/// Vertical speed that a hit at the very end of a paddle adds: half the ball speed.
pub const SPIN_SPEED: i64 = 200_000;

/// Number of equal steps in which a ball moves through one frame.
pub const BALL_SUBSTEPS: u64 = 3;

/// Longest time step of the physics, a twentieth of a second.
pub const MAX_DELTA_TIME: u64 = 50_000;

pub const MOTION_BLUR_ENABLED: bool = true;

/// Number of earlier positions that a ball remembers.
pub const MOTION_BLUR_TRAIL_COUNT: usize = 3;

pub const PARTICLES_ENABLED: bool = true;

/// Capacity of the particle system.
pub const MAX_PARTICLES: usize = 200;

pub const PADDLE_HIT_PARTICLE_COUNT: usize = 15;

pub const WALL_HIT_PARTICLE_COUNT: usize = 5;

pub const SCREEN_SHAKE_ENABLED: bool = true;

/// Largest offset of the shaking screen.
pub const SCREEN_SHAKE_INTENSITY: i64 = 5_000;

pub const SCREEN_SHAKE_DURATION: u64 = 200_000;

/// Length of the countdown before a round, in whole seconds.
pub const COUNTDOWN_SECONDS: i32 = 3;

pub const POWERUPS_ENABLED: bool = true;

pub const POWERUP_SIZE: i64 = 20_000;

/// Time between two spawns.
pub const POWERUP_SPAWN_INTERVAL: u64 = 10_000_000;

/// Time that a collected power-up lasts.
pub const POWERUP_DURATION: u64 = 5_000_000;

/// Remaining time below which a power-up flashes.
pub const POWERUP_FLASH_THRESHOLD: u64 = 1_000_000;

/// Speed gained per second in the accelerating mode.
pub const BALL_ACCELERATION_FACTOR: u32 = 10_000;

/// Largest speed that a multiplier or the acceleration gives a ball.
pub const MAX_BALL_SPEED: i64 = 800_000;

/// Change of speed below which the acceleration leaves a ball alone.
pub const ACCELERATION_THRESHOLD: i64 = 100;

/// Number of paddle hits from which a rally counts as long.
pub const LONG_RALLY_THRESHOLD: i32 = 5;

/// Speed multiplier of a long rally, in thousandths.
pub const LONG_RALLY_SPEED_MULTIPLIER: u32 = 1200;

/// Multiplier that leaves a size or a speed as it is, in thousandths.
pub const NEUTRAL_MULTIPLIER: u32 = 1000;

/// Multiplier of a boost, in thousandths.
pub const BOOST_MULTIPLIER: u32 = 1500;

/// Multiplier of a penalty, in thousandths.
pub const PENALTY_MULTIPLIER: u32 = 750;

/// What is wrong with a configuration.
#[derive(Clone, Copy, Debug, PartialEq, Eq, Structural)]
pub enum ConfigError {
    /// The countdown does not last a positive number of seconds.
    EmptyCountdown,
    /// The particle system has no room for a single particle.
    NoParticleCapacity,
}

/// What `validate` answers: the countdown is looked at first, then the particle capacity.
pub open spec fn spec_validate(countdown_seconds: i32, max_particles: usize) -> Result<
    (),
    ConfigError,
> {
    if countdown_seconds <= 0 {
        Err(ConfigError::EmptyCountdown)
    } else if max_particles == 0 {
        Err(ConfigError::NoParticleCapacity)
    } else {
        Ok(())
    }
}

/// Checks the two settings that a match cannot do without: a countdown of a positive
/// number of seconds, and a particle system with room for at least one particle.
pub fn validate(countdown_seconds: i32, max_particles: usize) -> (verdict: Result<
    (),
    ConfigError,
>)
    ensures
        verdict == spec_validate(countdown_seconds, max_particles),
        verdict.is_ok() <==> countdown_seconds > 0 && max_particles > 0,
{
    if countdown_seconds <= 0 {
        Err(ConfigError::EmptyCountdown)
    } else if max_particles == 0 {
        Err(ConfigError::NoParticleCapacity)
    } else {
        Ok(())
    }
}

/// The configuration of this game is valid.
pub proof fn lemma_configuration_is_valid()
    ensures
        spec_validate(COUNTDOWN_SECONDS, MAX_PARTICLES).is_ok(),
{
}

/// Colour of a ball.
pub fn ball_color() -> (c: Color)
    ensures
        c == (Color { r: 0, g: 0, b: 1000, a: 1000 }),
{
    Color { r: 0, g: 0, b: 1000, a: 1000 }
}

/// Colour of the particles of a wall hit.
pub fn wall_spark_color() -> (c: Color)
    ensures
        c == (Color { r: 800, g: 800, b: 800, a: 1000 }),
{
    Color { r: 800, g: 800, b: 800, a: 1000 }
}

} // verus!
