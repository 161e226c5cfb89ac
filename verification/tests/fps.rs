use opt::clock::Span;
use opt::fps::Counter;
use std::time::{Duration, Instant};

fn wait(span: Duration) {
    let start = Instant::now();
    while start.elapsed() < span {}
}

#[test]
fn a_new_counter_reports_its_baseline() {
    let counter = Counter::<2>::new(20);
    assert_eq!(counter.per_second(), 20_000);
    assert_eq!(counter.inner_duration(), Span::from_millis(50));
    let counter = Counter::<120>::new(60);
    assert_eq!(counter.per_second(), 60_000);
    assert_eq!(counter.inner_duration(), Span::from_nanos(16_666_666));
}

#[test]
fn advance_replaces_the_oldest_sample() {
    let mut counter = Counter::<2>::new(20);
    counter.advance(Span::from_millis(10), Span::from_millis(100));
    assert_eq!(counter.inner_duration(), Span::from_millis(30));
    assert_eq!(counter.per_second(), 13_333);
    counter.advance(Span::from_millis(20), Span::from_millis(100));
    assert_eq!(counter.inner_duration(), Span::from_millis(15));
    assert_eq!(counter.per_second(), 10_000);
    counter.advance(Span::from_millis(40), Span::from_millis(25));
    assert_eq!(counter.inner_duration(), Span::from_millis(30));
    assert_eq!(counter.per_second(), 16_000);
}

#[test]
fn a_counter_that_never_waited_reports_the_highest_rate() {
    let mut counter = Counter::<1>::new(1);
    counter.advance(Span::zero(), Span::zero());
    assert_eq!(counter.per_second(), i64::MAX);
    assert_eq!(counter.inner_duration(), Span::zero());
}

#[test]
fn long_samples_saturate() {
    let mut counter = Counter::<1>::new(1);
    counter.advance(Span(u128::MAX), Span(u128::MAX));
    assert_eq!(counter.inner_duration(), Span(u128::MAX));
    assert_eq!(counter.per_second(), 0);
    let mut counter = Counter::<2>::new(1);
    counter.advance(Span(u128::MAX), Span(u128::MAX));
    counter.advance(Span(u128::MAX), Span(5));
    assert_eq!(counter.inner_duration(), Span(u128::MAX / 2));
    counter.advance(Span(4), Span(4));
    assert_eq!(counter.inner_duration(), Span(2));
    counter.advance(Span(8), Span(8));
    assert_eq!(counter.inner_duration(), Span(4));
}

#[test]
fn tick_measures_the_time_since_the_last_tick() {
    let mut counter = Counter::<1>::new(1000);
    counter.reset_start();
    wait(Duration::from_millis(20));
    counter.tick(Span::from_millis(7));
    assert_eq!(counter.inner_duration(), Span::from_millis(7));
    let rate = counter.per_second();
    assert!(rate <= 50_000);
    assert!(rate > 0);
}

#[test]
fn record_runs_the_closure_and_returns_its_result() {
    let mut counter = Counter::<1>::new(1000);
    let result = counter.record(|| {
        wait(Duration::from_millis(10));
        42
    });
    assert_eq!(result, 42);
    assert!(counter.inner_duration() >= Span::from_millis(10));
    assert!(counter.inner_duration() < Span::from_secs(5));
}

#[test]
fn reset_start_keeps_the_samples() {
    let mut counter = Counter::<2>::new(20);
    counter.reset_start();
    assert_eq!(counter.per_second(), 20_000);
    assert_eq!(counter.inner_duration(), Span::from_millis(50));
}

#[test]
fn reset_start_lets_the_next_tick_count_from_the_reset() {
    let mut counter = Counter::<1>::new(1000);
    wait(Duration::from_millis(300));
    counter.reset_start();
    counter.tick(Span::zero());
    assert!(counter.per_second() > 3_334);
}

#[test]
fn restart_at_lets_the_next_tick_count_from_the_moment_given() {
    let mut counter = Counter::<1>::new(1000);
    let earlier = Instant::now();
    wait(Duration::from_millis(20));
    counter.restart_at(earlier);
    counter.tick(Span::zero());
    assert!(counter.per_second() <= 50_000);
    assert!(counter.per_second() > 0);

    let mut counter = Counter::<1>::new(1000);
    wait(Duration::from_millis(300));
    counter.restart_at(Instant::now());
    counter.tick(Span::zero());
    assert!(counter.per_second() > 3_334);
}

#[test]
fn restart_at_keeps_the_samples() {
    let mut counter = Counter::<2>::new(20);
    counter.advance(Span::from_millis(10), Span::from_millis(100));
    counter.restart_at(Instant::now());
    assert_eq!(counter.inner_duration(), Span::from_millis(30));
    assert_eq!(counter.per_second(), 13_333);
    counter.advance(Span::from_millis(20), Span::from_millis(100));
    assert_eq!(counter.inner_duration(), Span::from_millis(15));
    assert_eq!(counter.per_second(), 10_000);
}
