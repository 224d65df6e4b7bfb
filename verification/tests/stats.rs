use statui::stats::{AvailabilityStats, LatencyStats, Percent, UptimeLevel};
use std::collections::VecDeque;

fn window(samples: &[u64]) -> VecDeque<u64> {
    samples.iter().copied().collect()
}

#[test]
fn stats_of_an_empty_window_are_absent() {
    assert_eq!(
        LatencyStats::of(&VecDeque::new()),
        LatencyStats { min: None, max: None, avg: None }
    );
}

#[test]
fn stats_of_a_single_sample() {
    assert_eq!(
        LatencyStats::of(&window(&[42])),
        LatencyStats { min: Some(42), max: Some(42), avg: Some(42) }
    );
}

#[test]
fn mean_is_rounded_down() {
    assert_eq!(LatencyStats::of(&window(&[1, 2])).avg, Some(1));
    assert_eq!(LatencyStats::of(&window(&[1, 1, 2])).avg, Some(1));
    assert_eq!(LatencyStats::of(&window(&[3, 4, 4])).avg, Some(3));
    assert_eq!(LatencyStats::of(&window(&[0, 0, 0])).avg, Some(0));
}

#[test]
fn least_and_greatest_do_not_depend_on_the_order() {
    let stats = LatencyStats::of(&window(&[30, 10, 50, 20, 40]));
    assert_eq!(stats, LatencyStats { min: Some(10), max: Some(50), avg: Some(30) });
    let stats = LatencyStats::of(&window(&[50, 40, 30, 20, 10]));
    assert_eq!(stats, LatencyStats { min: Some(10), max: Some(50), avg: Some(30) });
}

#[test]
fn sum_of_huge_samples_does_not_overflow() {
    let stats = LatencyStats::of(&window(&[u64::MAX; 100]));
    assert_eq!(
        stats,
        LatencyStats { min: Some(u64::MAX), max: Some(u64::MAX), avg: Some(u64::MAX) }
    );
    let stats = LatencyStats::of(&window(&[u64::MAX, u64::MAX - 1]));
    assert_eq!(stats.avg, Some(u64::MAX - 1));
    assert_eq!(stats.min, Some(u64::MAX - 1));
}

#[test]
fn stats_of_a_window_that_wrapped_around() {
    let mut w: VecDeque<u64> = VecDeque::with_capacity(4);
    for x in [9, 8, 7, 6, 5, 4] {
        if w.len() == 4 {
            w.pop_front();
        }
        w.push_back(x);
    }
    assert_eq!(
        LatencyStats::of(&w),
        LatencyStats { min: Some(4), max: Some(7), avg: Some(5) }
    );
}

#[test]
fn availability_of_counts() {
    assert_eq!(
        AvailabilityStats::of(0, 0),
        AvailabilityStats { number_of_checks: 0, number_of_fails: 0, uptime_percent: None }
    );
    assert_eq!(
        AvailabilityStats::of(4, 1),
        AvailabilityStats {
            number_of_checks: 4,
            number_of_fails: 1,
            uptime_percent: Some(Percent { numerator: 300, denominator: 4 }),
        }
    );
    assert_eq!(
        AvailabilityStats::of(3, 3).uptime_percent,
        Some(Percent { numerator: 0, denominator: 3 })
    );
}

#[test]
fn availability_of_the_greatest_counts() {
    let stats = AvailabilityStats::of(u64::MAX, 0);
    assert_eq!(
        stats.uptime_percent,
        Some(Percent { numerator: 100 * (u64::MAX as u128), denominator: u64::MAX })
    );
    assert_eq!(stats.uptime_level(), UptimeLevel::Healthy);
}

#[test]
fn percent_is_compared_exactly() {
    let p = Percent { numerator: 200, denominator: 3 };
    assert!(p.at_least(0));
    assert!(p.at_least(66));
    assert!(!p.at_least(67));
    let full = Percent { numerator: 100, denominator: 1 };
    assert!(full.at_least(100));
    assert!(!full.at_least(101));
    let huge = Percent { numerator: u128::MAX, denominator: u64::MAX };
    assert!(huge.at_least(u64::MAX));
}

#[test]
fn uptime_levels_change_at_ninety_nine_and_ninety() {
    assert_eq!(AvailabilityStats::of(100, 0).uptime_level(), UptimeLevel::Healthy);
    assert_eq!(AvailabilityStats::of(100, 1).uptime_level(), UptimeLevel::Healthy);
    assert_eq!(AvailabilityStats::of(1000, 11).uptime_level(), UptimeLevel::Degraded);
    assert_eq!(AvailabilityStats::of(100, 2).uptime_level(), UptimeLevel::Degraded);
    assert_eq!(AvailabilityStats::of(100, 10).uptime_level(), UptimeLevel::Degraded);
    assert_eq!(AvailabilityStats::of(1000, 101).uptime_level(), UptimeLevel::Failing);
    assert_eq!(AvailabilityStats::of(100, 11).uptime_level(), UptimeLevel::Failing);
    assert_eq!(AvailabilityStats::of(1, 1).uptime_level(), UptimeLevel::Failing);
}

#[test]
fn no_check_reads_as_failing() {
    assert_eq!(AvailabilityStats::of(0, 0).uptime_level(), UptimeLevel::Failing);
}
