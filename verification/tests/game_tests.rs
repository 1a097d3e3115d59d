use pong_pong::color::Color;
use pong_pong::effects::countdown::Countdown;
use pong_pong::entities::ball::Ball;
use pong_pong::entities::direction::Direction;
use pong_pong::game::{Control, FrameDraws, GameState, Serve};
use pong_pong::game_mode::GameMode;
use pong_pong::powerups::powerup::{PowerUp, PowerUpType};
use pong_pong::random::RandomSource;
use pong_pong::vec2::Vec2;

fn level() -> Serve {
    Serve { angle: 0, rightward: true }
}

fn draws() -> FrameDraws {
    FrameDraws {
        spawn: PowerUp::new(Vec2::new(100_000, 100_000), PowerUpType::SpeedUp),
        split_angle: 0,
        serve: Serve { angle: 0, rightward: false },
    }
}

fn center() -> Vec2 {
    Vec2::new(500_000, 350_000)
}

/// A match in play: the countdown is over and the ball flies level to the right.
fn playing() -> GameState {
    let mut state = GameState::new_with(level());
    state.countdown.active = false;
    state.game_paused = false;
    state.round_in_progress = true;
    state
}

/// A match in play whose only ball is at `position` with `velocity`.
fn playing_with(position: Vec2, velocity: Vec2) -> GameState {
    let mut state = playing();
    state.balls[0].position = position;
    state.balls[0].velocity = velocity;
    state
}

fn trail(ball: &Ball) -> Vec<Vec2> {
    ball.get_motion_blur_positions().iter().copied().collect()
}

fn assert_fresh_round(state: &GameState) {
    assert!(state.game_paused);
    assert!(!state.round_in_progress);
    assert!(state.countdown.active);
    assert_eq!(state.countdown.elapsed, 0);
    assert_eq!(state.countdown.count, 3);
    assert_eq!(state.balls.len(), 1);
    assert_eq!(state.balls[0].position, center());
    assert_eq!(trail(&state.balls[0]), vec![center(); 3]);
    assert_eq!(state.balls[0].speed_multiplier, 1000);
    assert_eq!(state.power_up_manager.power_ups.len(), 0);
    assert_eq!(state.power_up_manager.spawn_timer, 10_000_000);
    assert_eq!(state.left_player.speed_multiplier, 1000);
    assert_eq!(state.left_player.size_multiplier, 1000);
    assert_eq!(state.right_player.speed_multiplier, 1000);
    assert_eq!(state.right_player.size_multiplier, 1000);
    assert_eq!(state.rally_count, 0);
    assert!(state.is_well_formed());
}

#[test]
fn new_match_waits_behind_the_countdown() {
    let state = GameState::new_with(level());
    assert_fresh_round(&state);
    assert_eq!(state.left_player.position, Vec2::new(5_000, 262_500));
    assert_eq!(state.right_player.position, Vec2::new(975_000, 262_500));
    assert_eq!(state.left_player.color, Color { r: 200, g: 640, b: 310, a: 1000 });
    assert_eq!(state.right_player.color, Color { r: 740, g: 130, b: 190, a: 1000 });
    assert_eq!(state.balls[0].velocity, Vec2::new(400_000, 0));
    assert_eq!(state.left_direction, None);
    assert_eq!(state.right_direction, None);
    assert_eq!(state.left_score, 0);
    assert_eq!(state.right_score, 0);
    assert_eq!(state.particle_system.particles.len(), 0);
    assert_eq!(state.particle_system.max_particles, 200);
    assert_eq!(state.countdown.duration, 3_000_000);
    assert_eq!(state.screen_shake, None);
    assert_eq!(state.game_mode, GameMode::Classic);
    assert_eq!(state.game_time, 0);
}

#[test]
fn random_match_starts_fresh() {
    let mut seed: u64 = 0;
    while seed < 20 {
        let mut rng = RandomSource::from_seed(seed);
        let state = GameState::new(&mut rng);
        assert_fresh_round(&state);
        let v = state.balls[0].velocity;
        assert!(v.y.abs() <= v.x.abs());
        assert!(v.x * v.x + v.y * v.y <= 400_000 * 400_000);
        assert!(v.x * v.x + v.y * v.y >= 399_997 * 399_997);
        seed += 1;
    }
}

#[test]
fn countdown_releases_the_game() {
    let mut state = GameState::new_with(level());
    state.left_direction = Some(Direction::Down);
    let bursts = state.step(1_000_000, &draws());
    assert_eq!(bursts.len(), 0);
    assert!(state.game_paused);
    assert_eq!(state.countdown.count, 2);
    state.step(1_000_000, &draws());
    assert!(state.game_paused);
    assert!(!state.round_in_progress);
    assert_eq!(state.balls[0].position, center());
    assert_eq!(state.left_player.position.y, 262_500);
    assert_eq!(state.game_time, 100_000);
    state.step(1_000_000, &draws());
    assert!(!state.game_paused);
    assert!(state.round_in_progress);
    assert!(!state.countdown.active);
    assert_eq!(state.balls[0].position, Vec2::new(519_998, 350_000));
    assert_eq!(state.left_player.position.y, 277_500);
    assert_eq!(state.game_time, 150_000);
}

#[test]
fn paused_game_does_not_play() {
    let mut state = playing();
    state.key_down_with(Control::TogglePause, level());
    state.key_down_with(Control::RightUp, level());
    assert!(state.game_paused);
    let bursts = state.step(16_667, &draws());
    assert_eq!(bursts.len(), 0);
    assert_eq!(state.balls[0].position, center());
    assert_eq!(state.right_player.position.y, 262_500);
    assert_eq!(state.power_up_manager.spawn_timer, 10_000_000);
    assert_eq!(state.game_time, 16_667);
    state.key_down_with(Control::TogglePause, level());
    state.step(16_667, &draws());
    assert_eq!(state.balls[0].position, Vec2::new(506_666, 350_000));
    assert_eq!(state.right_player.position.y, 257_500);
    assert_eq!(state.power_up_manager.spawn_timer, 9_983_333);
}

#[test]
fn frame_time_is_capped_for_the_physics() {
    let mut state = playing();
    state.left_direction = Some(Direction::Down);
    state.step(1_000_000, &draws());
    assert_eq!(state.balls[0].position, Vec2::new(519_998, 350_000));
    assert_eq!(state.left_player.position.y, 277_500);
    assert_eq!(state.game_time, 50_000);
    assert_eq!(state.power_up_manager.spawn_timer, 9_000_000);
    assert_eq!(state.power_up_manager.total_time, 1_000_000);
}

#[test]
fn round_reset_twice_is_the_same_as_once() {
    let mut state = playing_with(Vec2::new(123_456, 234_567), Vec2::new(-300_000, 200_000));
    state.left_score = 3;
    state.right_score = 5;
    state.rally_count = 7;
    state.game_mode = GameMode::RallyFever;
    state.left_player.apply_size_multiplier(1500);
    state.right_player.apply_speed_multiplier(750);
    state.right_player.update(Some(Direction::Down), 10_000_000);
    state.power_up_manager.power_ups.push(PowerUp::new(Vec2::new(200_000, 200_000), PowerUpType::PaddleGrow));
    state.balls.push(Ball::launched(center(), 100_000, false));
    state.add_screen_shake(5_000);
    let serve = Serve { angle: 250_000, rightward: false };
    state.start_new_round_with(serve);
    assert_fresh_round(&state);
    let left = state.left_player;
    let right = state.right_player;
    let velocity = state.balls[0].velocity;
    let countdown = state.countdown;
    assert_eq!(state.left_score, 3);
    assert_eq!(state.right_score, 5);
    assert_eq!(state.game_mode, GameMode::RallyFever);
    assert_eq!(right.position.y, 525_000);
    assert_eq!(left.size.y, 175_000);
    let once = state.clone();
    state.start_new_round_with(serve);
    assert_fresh_round(&state);
    assert_eq!(format!("{:?}", state), format!("{:?}", once));
    assert_eq!(state.left_player, left);
    assert_eq!(state.right_player, right);
    assert_eq!(state.balls[0].velocity, velocity);
    assert_eq!(state.countdown, countdown);
    assert_eq!(state.left_score, 3);
    assert_eq!(state.right_score, 5);
    assert_eq!(state.game_mode, GameMode::RallyFever);
    assert_eq!(state.screen_shake, Some((5_000, 200_000)));
}

#[test]
fn random_round_reset_is_fresh_each_time() {
    let mut rng = RandomSource::from_seed(17);
    let mut state = playing_with(Vec2::new(123_456, 234_567), Vec2::new(-300_000, 200_000));
    state.left_player.apply_size_multiplier(1500);
    state.start_new_round(&mut rng);
    assert_fresh_round(&state);
    let left = state.left_player;
    state.start_new_round(&mut rng);
    assert_fresh_round(&state);
    assert_eq!(state.left_player, left);
}

#[test]
fn ball_beyond_the_left_edge_scores_for_the_right_player() {
    let mut state = playing_with(Vec2::new(-10_001, 100_000), Vec2::new(-400_000, 0));
    state.rally_count = 2;
    let bursts = state.step(16_667, &draws());
    assert_eq!(bursts.len(), 0);
    assert_eq!(state.right_score, 1);
    assert_eq!(state.left_score, 0);
    assert_fresh_round(&state);
    assert_eq!(state.balls[0].velocity, Vec2::new(-400_000, 0));
}

#[test]
fn resting_ball_beyond_the_left_edge_scores_too() {
    let mut state = playing_with(Vec2::new(-10_001, 350_000), Vec2::new(0, 0));
    state.step(16_667, &draws());
    assert_eq!(state.right_score, 1);
    assert_eq!(state.left_score, 0);
    assert_fresh_round(&state);
}

#[test]
fn ball_on_the_left_edge_does_not_score() {
    let mut state = playing_with(Vec2::new(-10_000, 100_000), Vec2::new(0, 0));
    state.step(16_667, &draws());
    assert_eq!(state.right_score, 0);
    assert_eq!(state.balls[0].position, Vec2::new(-10_000, 100_000));
    assert!(!state.game_paused);
}

#[test]
fn ball_flying_back_into_the_field_does_not_score() {
    let mut state = playing_with(Vec2::new(-10_001, 100_000), Vec2::new(400_000, 0));
    state.step(16_667, &draws());
    assert_eq!(state.right_score, 0);
    assert_eq!(state.left_score, 0);
    assert_eq!(state.balls[0].position, Vec2::new(-3_335, 100_000));
    assert!(!state.game_paused);
}

#[test]
fn score_through_a_random_frame() {
    let mut rng = RandomSource::from_seed(23);
    let mut state = playing_with(Vec2::new(-10_001, 100_000), Vec2::new(-400_000, 0));
    state.right_score = 41;
    state.update(16_667, &mut rng);
    assert_eq!(state.right_score, 42);
    assert_eq!(state.left_score, 0);
    assert_fresh_round(&state);
}

#[test]
fn ball_beyond_the_right_edge_scores_for_the_left_player() {
    let mut state = playing_with(Vec2::new(1_010_001, 100_000), Vec2::new(400_000, 0));
    state.step(16_667, &draws());
    assert_eq!(state.left_score, 1);
    assert_eq!(state.right_score, 0);
    assert_fresh_round(&state);
    let mut on_edge = playing_with(Vec2::new(1_010_000, 100_000), Vec2::new(0, 0));
    on_edge.step(16_667, &draws());
    assert_eq!(on_edge.left_score, 0);
}

#[test]
fn scores_stop_at_the_largest_number() {
    let mut state = playing_with(Vec2::new(-10_001, 100_000), Vec2::new(-400_000, 0));
    state.right_score = u32::MAX;
    state.step(16_667, &draws());
    assert_eq!(state.right_score, u32::MAX);
    assert_fresh_round(&state);
}

#[test]
fn only_the_first_ball_that_leaves_scores() {
    let mut state = playing_with(Vec2::new(1_010_001, 100_000), Vec2::new(400_000, 0));
    let mut second = Ball::launched(Vec2::new(-10_001, 100_000), 0, false);
    second.velocity = Vec2::new(-400_000, 0);
    state.balls.push(second);
    state.step(16_667, &draws());
    assert_eq!(state.left_score, 1);
    assert_eq!(state.right_score, 0);
    assert_eq!(state.balls.len(), 1);
    let mut other = playing_with(Vec2::new(-10_001, 100_000), Vec2::new(-400_000, 0));
    other.balls.push(Ball::launched(Vec2::new(1_010_001, 100_000), 0, true));
    other.step(16_667, &draws());
    assert_eq!(other.left_score, 0);
    assert_eq!(other.right_score, 1);
}

#[test]
fn left_paddle_sends_the_ball_back() {
    let mut state = playing_with(Vec2::new(35_000, 350_000), Vec2::new(-400_000, 0));
    let bursts = state.step(16_667, &draws());
    assert_eq!(state.balls[0].position, Vec2::new(28_334, 350_000));
    assert_eq!(state.balls[0].velocity, Vec2::new(400_000, 0));
    assert_eq!(state.rally_count, 1);
    assert_eq!(state.screen_shake, Some((5_000, 200_000)));
    assert_eq!(bursts.len(), 1);
    assert_eq!(bursts[0].position, Vec2::new(25_000, 350_000));
    assert_eq!(bursts[0].color, Color { r: 200, g: 640, b: 310, a: 1000 });
    assert_eq!(bursts[0].count, 15);
    assert_eq!(state.left_score, 0);
    assert_eq!(state.right_score, 0);
    state.step(16_667, &draws());
    assert_eq!(state.balls[0].velocity, Vec2::new(400_000, 0));
    assert_eq!(state.balls[0].position, Vec2::new(35_000, 350_000));
    assert_eq!(state.rally_count, 1);
}

#[test]
fn ball_touching_the_paddle_edge_is_hit() {
    let mut state = playing_with(Vec2::new(35_000, 350_000), Vec2::new(-1, 0));
    state.game_mode = GameMode::RallyFever;
    state.step(16_667, &draws());
    assert_eq!(state.balls[0].position, Vec2::new(35_000, 350_000));
    assert_eq!(state.balls[0].velocity, Vec2::new(1, 0));
    assert_eq!(state.rally_count, 1);
    let mut apart = playing_with(Vec2::new(35_001, 350_000), Vec2::new(-1, 0));
    apart.game_mode = GameMode::RallyFever;
    apart.step(16_667, &draws());
    assert_eq!(apart.balls[0].velocity, Vec2::new(-1, 0));
    assert_eq!(apart.rally_count, 0);
}

#[test]
fn paddle_hit_adds_spin() {
    let mut low = playing_with(Vec2::new(30_000, 393_750), Vec2::new(-400_000, 0));
    low.game_mode = GameMode::RallyFever;
    low.step(16_667, &draws());
    assert_eq!(low.balls[0].velocity, Vec2::new(400_000, 100_000));
    let mut high = playing_with(Vec2::new(30_000, 306_250), Vec2::new(-400_000, 0));
    high.game_mode = GameMode::RallyFever;
    high.step(16_667, &draws());
    assert_eq!(high.balls[0].velocity, Vec2::new(400_000, -100_000));
    let mut end = playing_with(Vec2::new(30_000, 447_500), Vec2::new(-400_000, 50_000));
    end.game_mode = GameMode::RallyFever;
    end.step(0, &draws());
    assert_eq!(end.balls[0].velocity, Vec2::new(400_000, 272_857));
}

#[test]
fn ball_beside_the_paddle_is_missed() {
    let mut above = playing_with(Vec2::new(30_000, 252_499), Vec2::new(-400_000, 0));
    above.step(0, &draws());
    assert_eq!(above.balls[0].velocity, Vec2::new(-400_000, 0));
    assert_eq!(above.rally_count, 0);
    let mut touching = playing_with(Vec2::new(30_000, 252_500), Vec2::new(-400_000, 0));
    touching.game_mode = GameMode::RallyFever;
    touching.step(0, &draws());
    assert_eq!(touching.balls[0].velocity.x, 400_000);
    assert_eq!(touching.rally_count, 1);
    let mut below = playing_with(Vec2::new(30_000, 447_501), Vec2::new(-400_000, 0));
    below.step(0, &draws());
    assert_eq!(below.balls[0].velocity, Vec2::new(-400_000, 0));
}

#[test]
fn ball_leaving_the_paddle_is_not_hit_again() {
    let mut state = playing_with(Vec2::new(20_000, 350_000), Vec2::new(400_000, 0));
    let bursts = state.step(16_667, &draws());
    assert_eq!(state.balls[0].velocity, Vec2::new(400_000, 0));
    assert_eq!(state.rally_count, 0);
    assert_eq!(state.screen_shake, None);
    assert_eq!(bursts.len(), 0);
}

#[test]
fn right_paddle_sends_the_ball_back() {
    let mut state = playing_with(Vec2::new(965_000, 350_000), Vec2::new(400_000, 0));
    let bursts = state.step(16_667, &draws());
    assert_eq!(state.balls[0].position, Vec2::new(971_666, 350_000));
    assert_eq!(state.balls[0].velocity, Vec2::new(-400_000, 0));
    assert_eq!(state.rally_count, 1);
    assert_eq!(bursts.len(), 1);
    assert_eq!(bursts[0].position, Vec2::new(975_000, 350_000));
    assert_eq!(bursts[0].color, Color { r: 740, g: 130, b: 190, a: 1000 });
    assert_eq!(bursts[0].count, 15);
    let mut leaving = playing_with(Vec2::new(980_000, 350_000), Vec2::new(-400_000, 0));
    leaving.step(16_667, &draws());
    assert_eq!(leaving.balls[0].velocity, Vec2::new(-400_000, 0));
    assert_eq!(leaving.rally_count, 0);
}

#[test]
fn walls_reflect_the_ball() {
    let mut top = playing_with(Vec2::new(500_000, 5_000), Vec2::new(300_000, -400_000));
    let bursts = top.step(16_667, &draws());
    assert_eq!(top.balls[0].position, Vec2::new(504_998, -1_666));
    assert_eq!(top.balls[0].velocity, Vec2::new(240_000, 320_000));
    assert_eq!(bursts.len(), 1);
    assert_eq!(bursts[0].position, Vec2::new(504_998, 0));
    assert_eq!(bursts[0].color, Color { r: 800, g: 800, b: 800, a: 1000 });
    assert_eq!(bursts[0].count, 5);
    assert_eq!(top.rally_count, 0);
    assert_eq!(top.screen_shake, None);
    let mut bottom = playing_with(Vec2::new(500_000, 685_000), Vec2::new(0, 400_000));
    let bursts = bottom.step(16_667, &draws());
    assert_eq!(bottom.balls[0].position, Vec2::new(500_000, 691_666));
    assert_eq!(bottom.balls[0].velocity, Vec2::new(0, -400_000));
    assert_eq!(bursts[0].position, Vec2::new(500_000, 700_000));
    let mut free = playing_with(Vec2::new(500_000, 10_001), Vec2::new(0, 0));
    let bursts = free.step(16_667, &draws());
    assert_eq!(bursts.len(), 0);
}

#[test]
fn wall_and_paddle_in_one_frame() {
    let mut state = playing_with(Vec2::new(30_000, 5_000), Vec2::new(-400_000, -1_000));
    state.left_player.update(Some(Direction::Up), 10_000_000);
    state.game_mode = GameMode::RallyFever;
    let bursts = state.step(0, &draws());
    assert_eq!(bursts.len(), 2);
    assert_eq!(bursts[0].count, 5);
    assert_eq!(bursts[0].position, Vec2::new(30_000, 0));
    assert_eq!(bursts[1].count, 15);
    assert_eq!(bursts[1].position, Vec2::new(25_000, 5_000));
    assert_eq!(state.balls[0].velocity.x, 400_000);
    assert_eq!(state.balls[0].velocity.y, 1_000 - 188_571);
}

#[test]
fn classic_mode_keeps_the_nominal_speed() {
    let mut state = playing_with(center(), Vec2::new(500_000, 0));
    state.step(16_667, &draws());
    assert_eq!(state.balls[0].velocity, Vec2::new(400_000, 0));
    let mut slight = playing_with(center(), Vec2::new(430_000, 0));
    slight.step(16_667, &draws());
    assert_eq!(slight.balls[0].velocity, Vec2::new(430_000, 0));
}

#[test]
fn accelerating_mode_speeds_the_ball_up() {
    let mut state = playing_with(center(), Vec2::new(400_000, 0));
    state.game_mode = GameMode::Accelerating;
    state.step(16_667, &draws());
    assert_eq!(state.balls[0].velocity, Vec2::new(400_166, 0));
    state.step(16_667, &draws());
    assert_eq!(state.balls[0].velocity, Vec2::new(400_332, 0));
    let mut smooth = playing_with(center(), Vec2::new(400_000, 0));
    smooth.game_mode = GameMode::Accelerating;
    smooth.step(5_000, &draws());
    assert_eq!(smooth.balls[0].velocity, Vec2::new(400_000, 0));
}

#[test]
fn rally_fever_speeds_up_a_long_rally() {
    let mut state = playing_with(center(), Vec2::new(400_000, 0));
    state.game_mode = GameMode::RallyFever;
    state.rally_count = 4;
    state.step(16_667, &draws());
    assert_eq!(state.balls[0].velocity, Vec2::new(400_000, 0));
    assert_eq!(state.balls[0].speed_multiplier, 1000);
    state.rally_count = 5;
    state.step(16_667, &draws());
    assert_eq!(state.balls[0].velocity, Vec2::new(480_000, 0));
    assert_eq!(state.balls[0].speed_multiplier, 1200);
}

#[test]
fn fifth_paddle_hit_raises_the_speed_on_the_next_frame() {
    let mut state = playing_with(Vec2::new(35_000, 380_000), Vec2::new(-400_000, 0));
    state.game_mode = GameMode::RallyFever;
    state.rally_count = 4;
    state.step(16_667, &draws());
    assert_eq!(state.rally_count, 5);
    let hit = state.balls[0].velocity;
    assert_eq!(hit, Vec2::new(400_000, 68_571));
    state.step(16_667, &draws());
    let v = state.balls[0].velocity;
    let norm: i64 = v.x * v.x + v.y * v.y;
    assert!(norm <= 480_000 * 480_000);
    assert!(norm >= 479_997 * 479_997);
    assert!(v.x > 0 && v.y > 0);
    assert_eq!(state.balls[0].speed_multiplier, 1200);
}

#[test]
fn running_multiball_splits_the_single_ball_once() {
    let mut state = playing();
    let mut split = PowerUp::new(Vec2::new(200_000, 200_000), PowerUpType::MultiballSplit);
    split.activate(1);
    state.power_up_manager.power_ups.push(split);
    let mut chance = draws();
    chance.split_angle = 523_599;
    state.step(16_667, &chance);
    assert_eq!(state.balls.len(), 2);
    assert_eq!(state.balls[0].position, Vec2::new(506_666, 350_000));
    assert_eq!(state.balls[0].velocity, Vec2::new(400_000, 0));
    let v = state.balls[1].velocity;
    assert!((v.x - 346_410).abs() <= 3);
    assert!((v.y - 200_000).abs() <= 3);
    assert!(state.balls[1].position.x > 505_000);
    assert!(state.balls[1].position.y > 353_000);
    state.step(16_667, &chance);
    state.step(16_667, &chance);
    assert_eq!(state.balls.len(), 2);
    assert!(state.is_well_formed());
}

#[test]
fn collected_multiball_splits_the_ball() {
    let mut state = playing();
    state.power_up_manager.power_ups.push(PowerUp::new(Vec2::new(510_000, 350_000), PowerUpType::MultiballSplit));
    state.step(16_667, &draws());
    assert_eq!(state.balls.len(), 2);
    assert_eq!(state.power_up_manager.power_ups[0].collected_by, Some(1));
    assert_eq!(state.balls[1].position, state.balls[0].position);
    assert_eq!(state.balls[1].velocity, state.balls[0].velocity);
}

#[test]
fn collected_power_up_changes_the_paddles_in_the_frame() {
    let mut state = playing();
    state.power_up_manager.power_ups.push(PowerUp::new(Vec2::new(510_000, 350_000), PowerUpType::PaddleShrink));
    state.step(16_667, &draws());
    assert_eq!(state.left_player.size_multiplier, 750);
    assert_eq!(state.left_player.size.y, 131_250);
    assert_eq!(state.right_player.size_multiplier, 1000);
    assert_eq!(state.balls.len(), 1);
}

#[test]
fn power_up_spawns_after_ten_seconds_of_play() {
    let mut state = playing_with(center(), Vec2::new(0, 0));
    let mut frames: u32 = 0;
    while frames < 599 {
        state.step(16_667, &draws());
        frames += 1;
    }
    assert_eq!(state.power_up_manager.power_ups.len(), 0);
    state.step(16_667, &draws());
    assert_eq!(state.power_up_manager.power_ups.len(), 1);
    assert_eq!(state.power_up_manager.power_ups[0].position, Vec2::new(100_000, 100_000));
}

#[test]
fn added_multiball_without_a_ball_is_a_serve() {
    let mut state = playing();
    state.balls.clear();
    state.add_multiball(100_000, Serve { angle: 0, rightward: false });
    assert_eq!(state.balls.len(), 1);
    assert_eq!(state.balls[0].position, center());
    assert_eq!(state.balls[0].velocity, Vec2::new(-400_000, 0));
    state.add_multiball(0, level());
    assert_eq!(state.balls.len(), 2);
    assert_eq!(state.balls[1].velocity, Vec2::new(-400_000, 0));
}

#[test]
fn game_without_balls_plays_on() {
    let mut state = playing();
    state.balls.clear();
    state.left_direction = Some(Direction::Up);
    let bursts = state.step(16_667, &draws());
    assert_eq!(bursts.len(), 0);
    assert_eq!(state.left_player.position.y, 257_500);
    assert_eq!(state.power_up_manager.spawn_timer, 10_000_000);
    assert_eq!(state.balls.len(), 0);
}

#[test]
fn screen_shake_runs_out() {
    let mut state = GameState::new_with(level());
    state.add_screen_shake(5_000);
    assert_eq!(state.screen_shake, Some((5_000, 200_000)));
    state.step(100_000, &draws());
    assert_eq!(state.screen_shake, Some((5_000, 100_000)));
    state.add_screen_shake(7_000);
    assert_eq!(state.screen_shake, Some((7_000, 200_000)));
    state.step(199_000, &draws());
    assert_eq!(state.screen_shake, Some((7_000, 1_000)));
    state.step(1, &draws());
    assert_eq!(state.screen_shake, None);
    state.step(1, &draws());
    assert_eq!(state.screen_shake, None);
}

#[test]
fn direction_keys_steer_the_paddles() {
    let mut state = playing();
    state.key_down_with(Control::LeftUp, level());
    assert_eq!(state.left_direction, Some(Direction::Up));
    assert_eq!(state.right_direction, None);
    state.key_down_with(Control::LeftDown, level());
    assert_eq!(state.left_direction, Some(Direction::Down));
    state.key_down_with(Control::RightDown, level());
    assert_eq!(state.right_direction, Some(Direction::Down));
    state.key_down_with(Control::RightUp, level());
    assert_eq!(state.right_direction, Some(Direction::Up));
    state.key_up_event(Control::LeftUp);
    assert_eq!(state.left_direction, None);
    assert_eq!(state.right_direction, Some(Direction::Up));
    state.key_up_event(Control::RightDown);
    assert_eq!(state.right_direction, None);
    state.key_down_with(Control::LeftUp, level());
    state.key_up_event(Control::TogglePause);
    state.key_up_event(Control::Restart);
    state.key_up_event(Control::CycleMode);
    assert_eq!(state.left_direction, Some(Direction::Up));
    assert!(!state.game_paused);
    assert_eq!(state.game_mode, GameMode::Classic);
}

#[test]
fn pause_key_waits_for_the_countdown() {
    let mut state = GameState::new_with(level());
    state.key_down_with(Control::TogglePause, level());
    assert!(state.game_paused);
    state.step(3_000_000, &draws());
    assert!(!state.game_paused);
    state.key_down_with(Control::TogglePause, level());
    assert!(state.game_paused);
    state.key_down_with(Control::TogglePause, level());
    assert!(!state.game_paused);
}

#[test]
fn restart_key_starts_the_round_anew() {
    let mut state = playing_with(Vec2::new(123_456, 234_567), Vec2::new(-300_000, 200_000));
    state.left_score = 2;
    state.rally_count = 3;
    state.left_direction = Some(Direction::Up);
    state.key_down_with(Control::Restart, Serve { angle: 0, rightward: false });
    assert_fresh_round(&state);
    assert_eq!(state.balls[0].velocity, Vec2::new(-400_000, 0));
    assert_eq!(state.left_score, 2);
    assert_eq!(state.left_direction, Some(Direction::Up));
    assert_eq!(state.game_mode, GameMode::Classic);
}

#[test]
fn mode_key_cycles_the_mode_and_starts_the_round_anew() {
    let mut state = playing_with(Vec2::new(123_456, 234_567), Vec2::new(-300_000, 200_000));
    state.right_score = 9;
    state.key_down_with(Control::CycleMode, level());
    assert_eq!(state.game_mode, GameMode::Accelerating);
    assert_fresh_round(&state);
    state.cycle_game_mode_with(level());
    assert_eq!(state.game_mode, GameMode::RallyFever);
    let mut rng = RandomSource::from_seed(1);
    state.cycle_game_mode(&mut rng);
    assert_eq!(state.game_mode, GameMode::Classic);
    assert_fresh_round(&state);
    assert_eq!(state.right_score, 9);
}

#[test]
fn random_key_events() {
    let mut rng = RandomSource::from_seed(31);
    let mut state = playing();
    state.key_down_event(Control::LeftDown, &mut rng);
    assert_eq!(state.left_direction, Some(Direction::Down));
    assert!(!state.game_paused);
    state.key_down_event(Control::Restart, &mut rng);
    assert_fresh_round(&state);
    state.key_down_event(Control::CycleMode, &mut rng);
    assert_eq!(state.game_mode, GameMode::Accelerating);
    assert_fresh_round(&state);
}

#[test]
fn hits_emit_particles_within_the_capacity() {
    let mut rng = RandomSource::from_seed(3);
    let mut state = playing_with(Vec2::new(35_000, 350_000), Vec2::new(-400_000, 0));
    state.update(16_667, &mut rng);
    assert_eq!(state.rally_count, 1);
    assert_eq!(state.particle_system.particles.len(), 15);
    for particle in &state.particle_system.particles {
        assert_eq!(particle.position, Vec2::new(25_000, 350_000));
        assert_eq!(particle.color, Color { r: 200, g: 640, b: 310, a: 1000 });
        assert_eq!(particle.elapsed, 0);
    }
    state.update(16_667, &mut rng);
    assert_eq!(state.particle_system.particles.len(), 15);
    assert_eq!(state.particle_system.particles[0].elapsed, 16_667);
    state.update(500_000, &mut rng);
    assert_eq!(state.particle_system.particles.len(), 0);
}

#[test]
fn a_long_random_match_stays_well_formed() {
    let mut rng = RandomSource::from_seed(2024);
    let mut state = GameState::new(&mut rng);
    let controls: Vec<Control> = vec![
        Control::LeftUp,
        Control::LeftDown,
        Control::RightUp,
        Control::RightDown,
    ];
    let mut points: u32 = 0;
    let mut frame: usize = 0;
    while frame < 20_000 {
        if frame % 37 == 0 {
            state.key_down_event(controls[(frame / 37) % 4], &mut rng);
        }
        if frame % 53 == 0 {
            state.key_up_event(controls[(frame / 53) % 4]);
        }
        if frame == 7_000 || frame == 14_000 {
            state.key_down_event(Control::CycleMode, &mut rng);
        }
        let before: u32 = state.left_score + state.right_score;
        state.update(16_667, &mut rng);
        let after: u32 = state.left_score + state.right_score;
        assert!(after == before || after == before + 1);
        if after == before + 1 {
            points += 1;
            assert!(state.game_paused);
            assert!(state.countdown.active);
            assert_eq!(state.balls.len(), 1);
            assert_eq!(state.power_up_manager.power_ups.len(), 0);
        }
        assert!(state.is_well_formed());
        assert!(state.particle_system.particles.len() <= 200);
        assert!(1 <= state.balls.len() && state.balls.len() <= 2);
        for ball in &state.balls {
            assert_eq!(ball.previous_positions.len(), 3);
        }
        frame += 1;
    }
    assert!(points >= 10);
    assert_eq!(state.game_mode, GameMode::RallyFever);
}

#[test]
fn same_seed_same_match() {
    let mut first_rng = RandomSource::from_seed(99);
    let mut second_rng = RandomSource::from_seed(99);
    let mut first = GameState::new(&mut first_rng);
    let mut second = GameState::new(&mut second_rng);
    first.key_down_event(Control::LeftDown, &mut first_rng);
    second.key_down_event(Control::LeftDown, &mut second_rng);
    let mut frame: u64 = 0;
    while frame < 3_000 {
        first.update(10_000 + frame % 9_000, &mut first_rng);
        second.update(10_000 + frame % 9_000, &mut second_rng);
        frame += 1;
    }
    assert_eq!(format!("{:?}", first), format!("{:?}", second));
    assert!(first.left_score + first.right_score > 0);
}

#[test]
fn same_draws_same_frame() {
    let mut first = playing_with(Vec2::new(35_000, 380_000), Vec2::new(-400_000, 120_000));
    let mut second = first.clone();
    let mut frame: u32 = 0;
    while frame < 500 {
        let first_bursts = first.step(16_667, &draws());
        let second_bursts = second.step(16_667, &draws());
        assert_eq!(format!("{:?}", first_bursts), format!("{:?}", second_bursts));
        frame += 1;
    }
    assert_eq!(format!("{:?}", first), format!("{:?}", second));
}

#[test]
fn ill_formed_matches_are_told() {
    let mut state = playing();
    assert!(state.is_well_formed());
    state.balls[0].radius = -5;
    assert!(!state.is_well_formed());
    state.balls[0].radius = 10_000;
    state.countdown = Countdown { duration: 0, elapsed: 0, active: false, count: 0 };
    assert!(!state.is_well_formed());
}
