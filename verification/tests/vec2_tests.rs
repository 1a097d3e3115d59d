use pong_pong::numeric::LIMIT;
use pong_pong::vec2::Vec2;

#[test]
fn vector_lengths() {
    assert_eq!(Vec2::new(3000, 4000).length(), 5000);
    assert_eq!(Vec2::new(-3000, 4000).length(), 5000);
    assert_eq!(Vec2::new(1, 1).length(), 1);
    assert_eq!(Vec2::new(0, 0).length(), 0);
    assert_eq!(Vec2::new(3000, 4000).length_squared(), 25_000_000);
    assert_eq!(Vec2::new(LIMIT, LIMIT).length(), 1_414_213_562);
}

#[test]
fn scaling_a_pythagorean_vector_is_exact() {
    assert_eq!(Vec2::new(3000, 4000).scaled_to(10_000), Vec2::new(6000, 8000));
    assert_eq!(Vec2::new(-3, 4).scaled_to(10), Vec2::new(-6, 8));
    assert_eq!(Vec2::new(3, -4).scaled_to(0), Vec2::new(0, 0));
    assert_eq!(Vec2::new(400_000, 0).scaled_to(480_000), Vec2::new(480_000, 0));
}

#[test]
fn scaling_a_tiny_vector_keeps_its_direction() {
    let scaled = Vec2::new(1, 1).scaled_to(400_000);
    assert_eq!(scaled, Vec2::new(282_842, 282_842));
    let up = Vec2::new(0, -1).scaled_to(LIMIT);
    assert_eq!(up, Vec2::new(0, -LIMIT));
}

#[test]
fn scaling_the_zero_vector_changes_nothing() {
    assert_eq!(Vec2::new(0, 0).scaled_to(5000), Vec2::new(0, 0));
}

#[test]
fn scaled_length_is_within_three_units_below_the_target() {
    let vectors: Vec<Vec2> = vec![
        Vec2::new(1, 0),
        Vec2::new(7, -3),
        Vec2::new(-123_456, 654_321),
        Vec2::new(LIMIT, -LIMIT),
        Vec2::new(-LIMIT, 1),
        Vec2::new(399_999, 17),
    ];
    let targets: Vec<i64> = vec![0, 1, 2, 3, 4, 400_000, 480_000, 800_000, LIMIT];
    for v in &vectors {
        for target in &targets {
            let scaled = v.scaled_to(*target);
            let norm: i128 = (scaled.x as i128) * (scaled.x as i128) + (scaled.y as i128) * (scaled.y as i128);
            let high: i128 = (*target as i128) * (*target as i128);
            assert!(norm <= high);
            if *target >= 3 {
                let low: i128 = (*target as i128 - 3) * (*target as i128 - 3);
                assert!(norm >= low);
            }
            assert!(scaled.x == 0 || (scaled.x > 0) == (v.x > 0));
            assert!(scaled.y == 0 || (scaled.y > 0) == (v.y > 0));
        }
    }
}

#[test]
fn moving_rounds_each_step_toward_zero() {
    let start = Vec2::new(0, 0);
    let moved = start.moved_by(Vec2::new(400_000, -200_000), 16_667);
    assert_eq!(moved, Vec2::new(6666, -3333));
    assert_eq!(start.moved_by(Vec2::new(400_000, -200_000), 0), start);
    assert_eq!(Vec2::new(100, 100).moved_by(Vec2::new(1_000_000, 0), 1_000_000), Vec2::new(1_000_100, 100));
}

#[test]
fn moving_stops_at_the_stored_range() {
    assert_eq!(Vec2::new(LIMIT, 0).moved_by(Vec2::new(1000, 0), 1_000_000), Vec2::new(LIMIT, 0));
    assert_eq!(
        Vec2::new(0, 0).moved_by(Vec2::new(i64::MIN, i64::MAX), u64::MAX),
        Vec2::new(-LIMIT, LIMIT)
    );
}

#[test]
fn squared_distances() {
    assert_eq!(Vec2::new(0, 0).distance_squared(Vec2::new(3, 4)), 25);
    assert_eq!(Vec2::new(-LIMIT, -LIMIT).distance_squared(Vec2::new(LIMIT, LIMIT)), 8_000_000_000_000_000_000);
    assert_eq!(Vec2::new(5, 5).distance_squared(Vec2::new(5, 5)), 0);
}

#[test]
fn bounds_check() {
    assert!(Vec2::new(LIMIT, -LIMIT).is_in_bounds());
    assert!(!Vec2::new(LIMIT + 1, 0).is_in_bounds());
    assert!(!Vec2::new(0, -LIMIT - 1).is_in_bounds());
}
