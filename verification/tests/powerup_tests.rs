use pong_pong::color::Color;
use pong_pong::powerups::powerup::{PowerUp, PowerUpType};
use pong_pong::random::RandomSource;
use pong_pong::vec2::Vec2;

#[test]
fn kinds_by_number() {
    assert_eq!(PowerUpType::from_index(0), PowerUpType::PaddleGrow);
    assert_eq!(PowerUpType::from_index(1), PowerUpType::PaddleShrink);
    assert_eq!(PowerUpType::from_index(2), PowerUpType::SpeedUp);
    assert_eq!(PowerUpType::from_index(3), PowerUpType::SpeedDown);
    assert_eq!(PowerUpType::from_index(4), PowerUpType::MultiballSplit);
    assert_eq!(PowerUpType::from_index(5), PowerUpType::MultiballSplit);
    assert_eq!(PowerUpType::from_index(-1), PowerUpType::MultiballSplit);
}

#[test]
fn colours_of_the_kinds() {
    assert_eq!(PowerUpType::PaddleGrow.color(), Color { r: 0, g: 800, b: 0, a: 1000 });
    assert_eq!(PowerUpType::PaddleShrink.color(), Color { r: 800, g: 0, b: 0, a: 1000 });
    assert_eq!(PowerUpType::SpeedUp.color(), Color { r: 1000, g: 500, b: 0, a: 1000 });
    assert_eq!(PowerUpType::SpeedDown.color(), Color { r: 0, g: 0, b: 800, a: 1000 });
    assert_eq!(PowerUpType::MultiballSplit.color(), Color { r: 800, g: 0, b: 800, a: 1000 });
}

#[test]
fn every_kind_is_drawn() {
    let mut rng = RandomSource::from_seed(3);
    let kinds: Vec<PowerUpType> = vec![
        PowerUpType::PaddleGrow,
        PowerUpType::PaddleShrink,
        PowerUpType::SpeedUp,
        PowerUpType::SpeedDown,
        PowerUpType::MultiballSplit,
    ];
    let mut seen: Vec<u32> = vec![0; 5];
    let mut draws: u32 = 0;
    while draws < 1000 {
        let kind = PowerUpType::random(&mut rng);
        let mut index: usize = 0;
        while index < 5 {
            if kinds[index] == kind {
                seen[index] += 1;
            }
            index += 1;
        }
        draws += 1;
    }
    for count in seen {
        assert!(count > 100);
    }
}

#[test]
fn new_power_up_waits() {
    let power_up = PowerUp::new(Vec2::new(100_000, 200_000), PowerUpType::SpeedUp);
    assert_eq!(power_up.position, Vec2::new(100_000, 200_000));
    assert_eq!(power_up.power_type, PowerUpType::SpeedUp);
    assert_eq!(power_up.size, 20_000);
    assert!(power_up.active);
    assert_eq!(power_up.collected_by, None);
    assert_eq!(power_up.remaining_duration, None);
    assert_eq!(power_up.rotation, 0);
    assert!(power_up.is_well_formed());
}

#[test]
fn random_power_ups_lie_in_the_spawn_zones() {
    let mut rng = RandomSource::from_seed(9);
    let mut left: u32 = 0;
    let mut right: u32 = 0;
    let mut draws: u32 = 0;
    while draws < 1000 {
        let power_up = PowerUp::random(&mut rng);
        let x: i64 = power_up.position.x;
        let y: i64 = power_up.position.y;
        assert!(40_000 <= y && y < 660_000);
        if x < 500_000 {
            assert!(40_000 <= x && x < 460_000);
            left += 1;
        } else {
            assert!(540_000 <= x && x < 960_000);
            right += 1;
        }
        assert!(power_up.active);
        assert_eq!(power_up.collected_by, None);
        assert_eq!(power_up.remaining_duration, None);
        assert_eq!(power_up.size, 20_000);
        assert_eq!(power_up.rotation, 0);
        draws += 1;
    }
    assert!(left > 300);
    assert!(right > 300);
}

#[test]
fn collecting_starts_the_effect() {
    let mut power_up = PowerUp::new(Vec2::new(100_000, 200_000), PowerUpType::PaddleGrow);
    power_up.activate(1);
    assert!(!power_up.active);
    assert_eq!(power_up.collected_by, Some(1));
    assert_eq!(power_up.remaining_duration, Some(5_000_000));
}

#[test]
fn a_power_up_is_collected_once() {
    let mut power_up = PowerUp::new(Vec2::new(100_000, 200_000), PowerUpType::PaddleGrow);
    power_up.activate(0);
    assert!(power_up.update(2_000_000));
    power_up.activate(1);
    assert!(!power_up.active);
    assert_eq!(power_up.collected_by, Some(0));
    assert_eq!(power_up.remaining_duration, Some(3_000_000));
    assert!(!power_up.collides_with_ball(Vec2::new(100_000, 200_000), 10_000));
}

#[test]
fn waiting_power_up_never_expires() {
    let mut power_up = PowerUp::new(Vec2::new(100_000, 200_000), PowerUpType::SpeedDown);
    let mut frames: u32 = 0;
    while frames < 100 {
        assert!(power_up.update(1_000_000_000));
        frames += 1;
    }
    assert!(power_up.update(u64::MAX));
    assert!(power_up.active);
    assert_eq!(power_up.remaining_duration, None);
}

#[test]
fn collected_power_up_expires_when_its_time_is_up() {
    let mut power_up = PowerUp::new(Vec2::new(100_000, 200_000), PowerUpType::SpeedDown);
    power_up.activate(0);
    assert!(power_up.update(4_999_999));
    assert_eq!(power_up.remaining_duration, Some(1));
    assert!(!power_up.update(1));
    assert_eq!(power_up.remaining_duration, Some(0));
    let mut other = PowerUp::new(Vec2::new(100_000, 200_000), PowerUpType::SpeedDown);
    other.activate(1);
    assert!(!other.update(6_000_000));
    assert_eq!(other.remaining_duration, Some(0));
}

#[test]
fn power_up_turns_with_time() {
    let mut power_up = PowerUp::new(Vec2::new(100_000, 200_000), PowerUpType::SpeedUp);
    power_up.update(1_000_000);
    assert_eq!(power_up.rotation, 1_000_000);
    power_up.update(5_000_000);
    assert_eq!(power_up.rotation, 6_000_000);
    power_up.update(283_184);
    assert_eq!(power_up.rotation, 6_283_184);
    power_up.update(1);
    assert_eq!(power_up.rotation, 1);
    power_up.update(20_000_000);
    assert_eq!(power_up.rotation, 13_716_817);
    power_up.update(0);
    assert_eq!(power_up.rotation, 7_433_633);
}

#[test]
fn power_up_flashes_in_its_last_second() {
    let mut power_up = PowerUp::new(Vec2::new(100_000, 200_000), PowerUpType::SpeedUp);
    assert!(!power_up.should_flash());
    power_up.activate(0);
    assert!(!power_up.should_flash());
    power_up.update(3_999_999);
    assert!(!power_up.should_flash());
    power_up.update(1);
    assert!(power_up.should_flash());
}

#[test]
fn opacity_follows_the_flash_cycle() {
    let mut power_up = PowerUp::new(Vec2::new(100_000, 200_000), PowerUpType::SpeedUp);
    assert_eq!(power_up.get_opacity(0), 1000);
    assert_eq!(power_up.get_opacity(500), 1000);
    power_up.activate(0);
    power_up.update(4_500_000);
    assert_eq!(power_up.get_opacity(0), 500);
    assert_eq!(power_up.get_opacity(1), 500);
    assert_eq!(power_up.get_opacity(500), 750);
    assert_eq!(power_up.get_opacity(999), 999);
    assert_eq!(power_up.get_opacity(1000), 1000);
    assert_eq!(power_up.get_opacity(u16::MAX), 1000);
}

#[test]
fn ball_touches_within_size_plus_radius() {
    let power_up = PowerUp::new(Vec2::new(100_000, 100_000), PowerUpType::SpeedUp);
    assert!(power_up.collides_with_ball(Vec2::new(100_000, 100_000), 10_000));
    assert!(power_up.collides_with_ball(Vec2::new(129_999, 100_000), 10_000));
    assert!(!power_up.collides_with_ball(Vec2::new(130_000, 100_000), 10_000));
    assert!(power_up.collides_with_ball(Vec2::new(118_000, 76_001), 10_000));
    assert!(!power_up.collides_with_ball(Vec2::new(118_000, 76_000), 10_000));
    assert!(power_up.collides_with_ball(Vec2::new(100_000, 100_000), 0));
    let mut collected = power_up;
    collected.activate(0);
    assert!(!collected.collides_with_ball(Vec2::new(100_000, 100_000), 10_000));
}
