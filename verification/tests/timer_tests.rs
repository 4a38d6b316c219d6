use perfect_chef::timer::{MatchTimers, Timer};

#[test]
fn one_shot_timer_finishes_and_stays_finished() {
    let mut t = Timer::new(500, false);
    assert!(!t.finished());
    t.tick(499);
    assert!(!t.finished());
    assert_eq!(t.elapsed_ms, 499);
    t.tick(1);
    assert!(t.finished());
    assert!(t.just_finished());
    t.tick(100);
    assert!(t.finished());
    assert!(!t.just_finished());
    assert_eq!(t.elapsed_ms, 500);
}

#[test]
fn one_shot_timer_clamps_overshoot() {
    let mut t = Timer::new(500, false);
    t.tick(10_000);
    assert!(t.finished());
    assert_eq!(t.elapsed_ms, 500);
}

#[test]
fn repeating_timer_wraps_and_reports_once() {
    let mut t = Timer::new(1000, true);
    t.tick(999);
    assert!(!t.finished());
    t.tick(2);
    assert!(t.finished());
    assert_eq!(t.elapsed_ms, 1);
    t.tick(1);
    assert!(!t.finished());
    assert_eq!(t.elapsed_ms, 2);
}

#[test]
fn reset_rewinds() {
    let mut t = Timer::new(500, false);
    t.tick(500);
    t.reset();
    assert!(!t.finished());
    assert_eq!(t.elapsed_ms, 0);
}

#[test]
fn percent_milli_measures_the_period() {
    let mut t = Timer::new(2000, false);
    t.tick(500);
    assert_eq!(t.percent_milli(), 250);
    t.tick(1500);
    assert_eq!(t.percent_milli(), 1000);
}

#[test]
fn match_timers_default_periods() {
    let m = MatchTimers::default();
    assert_eq!(m.game.duration_ms, 10_000);
    assert_eq!(m.reward.duration_ms, 5_000);
    assert_eq!(m.cook.duration_ms, 1_000);
    assert!(m.game.repeating && m.reward.repeating && m.cook.repeating);
}
