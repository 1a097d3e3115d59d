use pong_pong::effects::countdown::Countdown;

#[test]
fn new_countdown_waits() {
    let countdown = Countdown::new(3);
    assert_eq!(countdown.duration, 3_000_000);
    assert_eq!(countdown.elapsed, 0);
    assert!(!countdown.active);
    assert_eq!(countdown.count, 3);
    assert!(countdown.is_well_formed());
}

#[test]
fn start_rearms_the_countdown() {
    let mut countdown = Countdown::new(3);
    countdown.start();
    assert!(countdown.active);
    assert_eq!(countdown.elapsed, 0);
    assert_eq!(countdown.count, 3);
    countdown.update(1_500_000);
    countdown.start();
    assert!(countdown.active);
    assert_eq!(countdown.elapsed, 0);
    assert_eq!(countdown.count, 3);
}

#[test]
fn countdown_finishes_exactly_once_after_three_seconds() {
    let mut countdown = Countdown::new(3);
    countdown.start();
    assert!(!countdown.update(1_000_000));
    assert_eq!(countdown.count, 2);
    assert!(!countdown.update(1_000_000));
    assert_eq!(countdown.count, 1);
    assert!(!countdown.update(999_999));
    assert_eq!(countdown.count, 1);
    assert!(countdown.active);
    assert!(countdown.update(1));
    assert!(!countdown.active);
    assert_eq!(countdown.count, 0);
    assert_eq!(countdown.elapsed, 3_000_000);
    let finished = countdown;
    assert!(!countdown.update(1_000_000));
    assert!(!countdown.update(3_000_000));
    assert_eq!(countdown, finished);
}

#[test]
fn countdown_in_small_frames() {
    let mut countdown = Countdown::new(3);
    countdown.start();
    let mut signals: u32 = 0;
    let mut frames: u32 = 0;
    while frames < 400 {
        if countdown.update(16_667) {
            signals += 1;
            assert_eq!(frames, 179);
        }
        frames += 1;
    }
    assert_eq!(signals, 1);
    assert!(!countdown.active);
}

#[test]
fn inactive_countdown_ignores_time() {
    let mut countdown = Countdown::new(2);
    assert!(!countdown.update(5_000_000));
    assert_eq!(countdown, Countdown::new(2));
}

#[test]
fn count_may_fall_below_zero_on_the_last_frame() {
    let mut countdown = Countdown::new(3);
    countdown.start();
    assert!(countdown.update(4_200_000));
    assert_eq!(countdown.count, -1);
    assert_eq!(countdown.elapsed, 4_200_000);
}

#[test]
fn a_huge_frame_saturates() {
    let mut countdown = Countdown::new(3);
    countdown.start();
    countdown.update(1);
    assert!(countdown.update(u64::MAX));
    assert_eq!(countdown.elapsed, u64::MAX);
    assert_eq!(countdown.count, i32::MIN);
    assert!(!countdown.active);
}

#[test]
fn longest_countdown() {
    let countdown = Countdown::new(i32::MAX);
    assert_eq!(countdown.duration, 2_147_483_647_000_000);
    assert!(countdown.is_well_formed());
    let broken = Countdown { duration: 0, elapsed: 0, active: false, count: 0 };
    assert!(!broken.is_well_formed());
    let ragged = Countdown { duration: 1_500_000, elapsed: 0, active: false, count: 1 };
    assert!(!ragged.is_well_formed());
}
