use ferris_ecs::timer::Timer;

const SECOND: u64 = 1_000_000_000;

#[test]
fn fresh_timer_reports_nothing() {
    let timer = Timer::new(2 * SECOND, false);
    assert_eq!(timer.duration(), 2 * SECOND);
    assert_eq!(timer.elapsed(), 0);
    assert!(!timer.repeating());
    assert!(!timer.finished());
    assert!(!timer.just_finished());
}

#[test]
fn one_shot_fires_on_the_tick_that_reaches_the_duration() {
    let mut timer = Timer::new(10, false);
    let deltas = [3u64, 3, 3, 3, 3, 5];
    let mut sum = 0;
    for (i, delta) in deltas.iter().enumerate() {
        timer.tick(*delta);
        sum += *delta;
        assert_eq!(timer.just_finished(), i == 3);
        assert_eq!(timer.finished(), sum >= 10);
        assert_eq!(timer.elapsed(), sum.min(10));
    }
    assert_eq!(sum, 20);
}

#[test]
fn one_shot_fires_when_the_sum_is_exactly_the_duration() {
    let mut timer = Timer::new(SECOND, false);
    timer.tick(SECOND / 2);
    assert!(!timer.just_finished());
    assert_eq!(timer.elapsed(), SECOND / 2);
    timer.tick(SECOND / 2);
    assert!(timer.just_finished());
    assert!(timer.finished());
    assert_eq!(timer.elapsed(), SECOND);
    timer.tick(SECOND);
    assert!(!timer.just_finished());
    assert!(timer.finished());
    assert_eq!(timer.elapsed(), SECOND);
}

#[test]
fn one_shot_stays_silent_on_a_tick_of_no_length() {
    let mut timer = Timer::new(5, false);
    timer.tick(0);
    assert!(!timer.just_finished());
    assert_eq!(timer.elapsed(), 0);
    timer.tick(u64::MAX);
    assert!(timer.just_finished());
    assert_eq!(timer.elapsed(), 5);
    timer.tick(0);
    assert!(!timer.just_finished());
    assert!(timer.finished());
}

#[test]
fn repeating_timer_fires_every_second_tick() {
    let mut timer = Timer::new(2 * SECOND, true);
    for tick in 1..=8u32 {
        timer.tick(SECOND);
        assert_eq!(timer.just_finished(), tick % 2 == 0);
        assert_eq!(timer.finished(), tick % 2 == 0);
        assert_eq!(timer.elapsed(), if tick % 2 == 0 { 0 } else { SECOND });
        assert!(timer.elapsed() <= timer.duration());
    }
}

#[test]
fn repeating_timer_keeps_the_rest_of_a_long_tick() {
    let mut timer = Timer::new(2, true);
    timer.tick(5);
    assert!(timer.just_finished());
    assert_eq!(timer.elapsed(), 1);
    timer.tick(0);
    assert!(!timer.just_finished());
    assert_eq!(timer.elapsed(), 1);
    timer.tick(1);
    assert!(timer.just_finished());
    assert_eq!(timer.elapsed(), 0);
}

#[test]
fn repeating_timer_takes_the_longest_tick() {
    let mut timer = Timer::new(u64::MAX, true);
    timer.tick(u64::MAX - 1);
    assert!(!timer.just_finished());
    timer.tick(u64::MAX);
    assert!(timer.just_finished());
    assert_eq!(timer.elapsed(), u64::MAX - 1);
}

#[test]
fn timer_without_a_period_finishes_on_its_first_tick() {
    let mut once = Timer::new(0, false);
    assert!(once.finished());
    assert!(!once.just_finished());
    once.tick(0);
    assert!(once.just_finished());
    assert!(once.finished());
    once.tick(7);
    assert!(!once.just_finished());
    assert_eq!(once.elapsed(), 0);

    let mut again = Timer::new(0, true);
    assert!(!again.finished());
    again.tick(3);
    assert!(again.just_finished());
    assert_eq!(again.elapsed(), 0);
    again.tick(0);
    assert!(again.just_finished());
}
