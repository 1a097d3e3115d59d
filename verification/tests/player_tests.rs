use pong_pong::color::Color;
use pong_pong::constants::{PLAYER_HEIGHT, PLAYER_MAX_HEIGHT, PLAYER_WIDTH, SCREEN_HEIGHT};
use pong_pong::entities::direction::Direction;
use pong_pong::entities::player::Player;
use pong_pong::vec2::Vec2;

fn paddle() -> Player {
    Player::new(Color::new(200, 640, 310, 1000), Vec2::new(5_000, 262_500))
}

#[test]
fn new_paddle_has_the_configured_size() {
    let player = paddle();
    assert_eq!(player.position, Vec2::new(5_000, 262_500));
    assert_eq!(player.size, Vec2::new(PLAYER_WIDTH, PLAYER_HEIGHT));
    assert_eq!(player.original_size, Vec2::new(20_000, 175_000));
    assert_eq!(player.color, Color { r: 200, g: 640, b: 310, a: 1000 });
    assert_eq!(player.speed_multiplier, 1000);
    assert_eq!(player.size_multiplier, 1000);
    assert!(player.is_well_formed());
}

#[test]
fn paddle_without_input_rests() {
    let mut player = paddle();
    player.update(None, 16_667);
    assert_eq!(player, paddle());
}

#[test]
fn paddle_moves_by_speed_times_time() {
    let mut player = paddle();
    player.update(Some(Direction::Up), 16_667);
    assert_eq!(player.position, Vec2::new(5_000, 257_500));
    player.update(Some(Direction::Down), 16_667);
    player.update(Some(Direction::Down), 16_667);
    assert_eq!(player.position, Vec2::new(5_000, 267_500));
    player.update(Some(Direction::Down), 1_000_000);
    assert_eq!(player.position.y, 525_000);
}

#[test]
fn paddle_stops_at_the_top_and_at_the_bottom() {
    let mut player = paddle();
    player.update(Some(Direction::Up), 10_000_000);
    assert_eq!(player.position.y, 0);
    player.update(Some(Direction::Up), 16_667);
    assert_eq!(player.position.y, 0);
    player.update(Some(Direction::Down), u64::MAX);
    assert_eq!(player.position.y, SCREEN_HEIGHT - PLAYER_HEIGHT);
    player.update(Some(Direction::Down), 16_667);
    assert_eq!(player.position.y, 525_000);
}

#[test]
fn paddle_speed_follows_its_multiplier() {
    let mut player = paddle();
    player.apply_speed_multiplier(1500);
    assert_eq!(player.speed_multiplier, 1500);
    player.update(Some(Direction::Up), 16_667);
    assert_eq!(player.position.y, 255_000);
    player.apply_speed_multiplier(750);
    player.update(Some(Direction::Down), 16_667);
    assert_eq!(player.position.y, 258_750);
    player.apply_speed_multiplier(0);
    player.update(Some(Direction::Down), 1_000_000);
    assert_eq!(player.position.y, 258_750);
}

#[test]
fn paddle_height_follows_its_multiplier() {
    let mut player = paddle();
    player.apply_size_multiplier(1500);
    assert_eq!(player.size, Vec2::new(20_000, 262_500));
    assert_eq!(player.position.y, 262_500);
    player.apply_size_multiplier(750);
    assert_eq!(player.size.y, 131_250);
    player.apply_size_multiplier(4000);
    assert_eq!(player.size.y, PLAYER_MAX_HEIGHT);
    assert_eq!(player.position.y, 140_000);
    player.apply_size_multiplier(u32::MAX);
    assert_eq!(player.size.y, 560_000);
    player.apply_size_multiplier(0);
    assert_eq!(player.size.y, 0);
    assert_eq!(player.original_size.y, 175_000);
    assert!(player.is_well_formed());
}

#[test]
fn growing_paddle_at_the_bottom_moves_up() {
    let mut player = paddle();
    player.update(Some(Direction::Down), 10_000_000);
    assert_eq!(player.position.y, 525_000);
    player.apply_size_multiplier(1500);
    assert_eq!(player.position.y, 437_500);
    assert_eq!(player.position.y + player.size.y, SCREEN_HEIGHT);
}

#[test]
fn reset_removes_the_modifiers() {
    let mut player = paddle();
    player.apply_size_multiplier(1500);
    player.apply_speed_multiplier(750);
    player.reset_power_ups();
    assert_eq!(player.size_multiplier, 1000);
    assert_eq!(player.speed_multiplier, 1000);
    assert_eq!(player.size.y, 175_000);
    let once = player;
    player.reset_power_ups();
    assert_eq!(player, once);
}

#[test]
fn paddle_never_leaves_the_field() {
    let mut player = paddle();
    let directions: Vec<Option<Direction>> = vec![Some(Direction::Up), Some(Direction::Down), None];
    let multipliers: Vec<u32> = vec![1500, 750, 1000, 3000, 1, 0, 2000];
    let mut round: usize = 0;
    while round < 300 {
        let direction = directions[(round * 7 + round / 5) % 3];
        player.update(direction, ((round as u64) * 7919) % 60_000);
        assert!(0 <= player.position.y && player.position.y <= SCREEN_HEIGHT - player.size.y);
        if round % 11 == 0 {
            player.apply_size_multiplier(multipliers[(round / 11) % 7]);
            assert!(0 <= player.position.y && player.position.y <= SCREEN_HEIGHT - player.size.y);
        }
        if round % 13 == 0 {
            player.apply_speed_multiplier(multipliers[(round / 13) % 7]);
        }
        if round % 97 == 0 {
            player.reset_power_ups();
        }
        assert!(player.is_well_formed());
        round += 1;
    }
}

#[test]
fn misplaced_paddle_is_not_well_formed() {
    let mut player = paddle();
    player.position.y = -1;
    assert!(!player.is_well_formed());
    player.position.y = 525_001;
    assert!(!player.is_well_formed());
    player.position.y = 525_000;
    assert!(player.is_well_formed());
    player.size.y = 100_000;
    assert!(!player.is_well_formed());
}
