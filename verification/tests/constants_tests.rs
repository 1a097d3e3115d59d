use pong_pong::color::Color;
use pong_pong::constants::{
    ball_color, validate, wall_spark_color, ConfigError, BALL_SPEED, COUNTDOWN_SECONDS,
    MAX_BALL_SPEED, MAX_PARTICLES, PLAYER_HEIGHT, PLAYER_MAX_HEIGHT, SCREEN_HEIGHT, SPIN_SPEED,
};

#[test]
fn shipped_configuration_is_valid() {
    assert_eq!(validate(COUNTDOWN_SECONDS, MAX_PARTICLES), Ok(()));
}

#[test]
fn countdown_must_last() {
    assert_eq!(validate(0, 200), Err(ConfigError::EmptyCountdown));
    assert_eq!(validate(-3, 200), Err(ConfigError::EmptyCountdown));
    assert_eq!(validate(i32::MIN, 0), Err(ConfigError::EmptyCountdown));
    assert_eq!(validate(1, 1), Ok(()));
}

#[test]
fn particles_need_room() {
    assert_eq!(validate(3, 0), Err(ConfigError::NoParticleCapacity));
    assert_eq!(validate(i32::MAX, usize::MAX), Ok(()));
}

#[test]
fn derived_settings_agree() {
    assert_eq!(PLAYER_HEIGHT, SCREEN_HEIGHT / 4);
    assert_eq!(PLAYER_MAX_HEIGHT, SCREEN_HEIGHT * 8 / 10);
    assert_eq!(SPIN_SPEED, BALL_SPEED / 2);
    assert_eq!(MAX_BALL_SPEED, 2 * BALL_SPEED);
}

#[test]
fn configured_colours() {
    assert_eq!(ball_color(), Color::new(0, 0, 1000, 1000));
    assert_eq!(wall_spark_color(), Color::new(800, 800, 800, 1000));
}
