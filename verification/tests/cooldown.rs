use std::time::Duration;

use arcade_control::cooldown::{Cooldown, NANOS_PER_SECOND};

#[test]
fn test_cooldown() {
    let mut cd = Cooldown::from_seconds(2);
    assert_eq!(cd.finished(), true);

    // Start the cooldown
    cd.start();
    assert_eq!(cd.finished(), false);
    assert_eq!(cd.tick(Duration::from_secs_f32(0.75).as_nanos()), false);
    assert_eq!(cd.tick(Duration::from_secs_f32(1.5).as_nanos()), true);
    assert_eq!(cd.tick(Duration::from_secs_f32(10.0).as_nanos()), true);

    // Re-start the cooldown
    cd.start();
    assert_eq!(cd.finished(), false);
    assert_eq!(cd.tick(Duration::from_secs_f32(0.75).as_nanos()), false);
    assert_eq!(cd.tick(Duration::from_secs_f32(0.75).as_nanos()), false);
    assert_eq!(cd.tick(Duration::from_secs_f32(0.75).as_nanos()), true);
}

#[test]
fn tick_reports_what_finished_reports() {
    let mut cd = Cooldown::from_seconds(2);
    cd.start();
    for _ in 0..5 {
        let reported = cd.tick(600_000_000);
        assert_eq!(reported, cd.finished());
    }
    assert!(cd.finished());
}

#[test]
fn new_cooldown_is_ready() {
    for duration in [1u128, 2, 350_000_000, 2_000_000_000, u128::MAX] {
        let cd = Cooldown::new(duration);
        assert!(cd.finished());
        assert_eq!(cd.duration(), duration);
        assert_eq!(cd.elapsed(), duration);
    }
}

#[test]
fn from_seconds_counts_in_nanoseconds() {
    let cd = Cooldown::from_seconds(2);
    assert_eq!(cd.duration(), 2_000_000_000);
    assert_eq!(cd.elapsed(), 2_000_000_000);
    assert_eq!(NANOS_PER_SECOND, 1_000_000_000);

    let longest = Cooldown::from_seconds(u64::MAX);
    assert_eq!(longest.duration(), u64::MAX as u128 * 1_000_000_000);
    assert!(longest.finished());
}

#[test]
fn start_resets_elapsed_time() {
    let mut cd = Cooldown::new(500);
    cd.start();
    assert_eq!(cd.elapsed(), 0);
    assert_eq!(cd.duration(), 500);
    assert!(!cd.finished());
}

#[test]
fn ready_exactly_at_duration() {
    let mut cd = Cooldown::new(1_000);
    cd.start();
    assert!(!cd.tick(999));
    assert_eq!(cd.elapsed(), 999);
    assert!(cd.tick(1));
    assert_eq!(cd.elapsed(), 1_000);

    cd.start();
    assert!(cd.tick(1_000));
    assert_eq!(cd.elapsed(), 1_000);
}

#[test]
fn tick_beyond_duration_stays_ready() {
    let mut cd = Cooldown::new(1_000);
    cd.start();
    assert!(cd.tick(1_001));
    assert_eq!(cd.elapsed(), 1_000);
    assert!(cd.tick(5));
    assert!(cd.tick(u128::MAX));
    assert_eq!(cd.elapsed(), 1_000);
    assert!(cd.finished());
}

#[test]
fn ticking_a_ready_cooldown_changes_nothing() {
    let mut cd = Cooldown::new(350_000_000);
    for delta in [1u128, 16_666_667, 350_000_000, u128::MAX] {
        assert!(cd.tick(delta));
        assert_eq!(cd.elapsed(), 350_000_000);
        assert_eq!(cd.duration(), 350_000_000);
    }
}

#[test]
fn tick_by_nothing_changes_nothing() {
    let mut cd = Cooldown::new(1_000);
    cd.start();
    cd.tick(400);
    assert!(!cd.tick(0));
    assert_eq!(cd.elapsed(), 400);
}

#[test]
fn huge_ticks_do_not_wrap() {
    let mut cd = Cooldown::new(u128::MAX);
    cd.start();
    assert!(!cd.tick(u128::MAX - 1));
    assert_eq!(cd.elapsed(), u128::MAX - 1);
    assert!(cd.tick(u128::MAX));
    assert_eq!(cd.elapsed(), u128::MAX);
}

#[test]
fn zero_duration_is_always_ready() {
    let mut cd = Cooldown::new(0);
    assert!(cd.finished());
    cd.start();
    assert!(cd.finished());
    assert!(cd.tick(0));
    assert!(cd.tick(10));
    assert_eq!(cd.elapsed(), 0);

    let mut zero_seconds = Cooldown::from_seconds(0);
    zero_seconds.start();
    assert!(zero_seconds.finished());
}

#[test]
fn two_second_cooldown_scenario() {
    let mut cd = Cooldown::new(2_000_000_000);
    assert!(cd.finished());
    cd.start();
    assert!(!cd.finished());
    assert!(!cd.tick(750_000_000));
    assert_eq!(cd.elapsed(), 750_000_000);
    assert!(cd.tick(1_500_000_000));
    assert_eq!(cd.elapsed(), 2_000_000_000);
    assert!(cd.tick(10_000_000_000));
    assert_eq!(cd.elapsed(), 2_000_000_000);
}

#[test]
fn a_copy_counts_on_its_own() {
    let mut cd = Cooldown::new(100);
    cd.start();
    let copy = cd;
    cd.tick(100);
    assert!(cd.finished());
    assert!(!copy.finished());
    assert_eq!(copy.elapsed(), 0);
}
