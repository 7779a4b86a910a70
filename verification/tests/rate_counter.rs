use peer_rate::rate_counter::RateCounter;
use std::time::{SystemTime, UNIX_EPOCH};

fn now_ms() -> u64 {
    SystemTime::now().duration_since(UNIX_EPOCH).unwrap().as_millis() as u64
}

#[test]
fn test_rate_counter() {
    let mut rc = RateCounter::new();

    rc.increment(1000);
    assert_eq!(rc.bytes_per_min(), 1000);
    assert_eq!(rc.count_per_min(), 1);

    rc.increment(123);

    assert_eq!(rc.bytes_per_min(), 1123);
    assert_eq!(rc.count_per_min(), 2);

    rc.truncate(now_ms() + 60_000 + 1);

    assert_eq!(rc.bytes_per_min(), 0);
    assert_eq!(rc.count_per_min(), 0);
}

#[test]
fn fresh_counter_reports_zero() {
    let mut rc = RateCounter::new();
    let data = rc.get_bytes_per_min_and_count_per_min_and_truncate();
    assert_eq!(data.bytes_per_min, 0);
    assert_eq!(data.count_per_min, 0);
}

#[test]
fn single_increment_then_query() {
    let mut rc = RateCounter::new();
    rc.increment(1000);
    let data = rc.get_bytes_per_min_and_count_per_min_and_truncate();
    assert_eq!(data.bytes_per_min, 1000);
    assert_eq!(data.count_per_min, 1);
}

#[test]
fn two_increments_then_query() {
    let mut rc = RateCounter::new();
    rc.increment(1000);
    rc.increment(123);
    let data = rc.get_bytes_per_min_and_count_per_min_and_truncate();
    assert_eq!(data.bytes_per_min, 1123);
    assert_eq!(data.count_per_min, 2);
}

#[test]
fn everything_expires_past_the_window() {
    let mut rc = RateCounter::new();
    rc.increment(1000);
    rc.increment(123);
    rc.truncate(now_ms() + 60_000 + 1);
    let data = rc.get_bytes_per_min_and_count_per_min_and_truncate();
    assert_eq!(data.bytes_per_min, 0);
    assert_eq!(data.count_per_min, 0);
}

#[test]
fn staggered_entries_expire_one_by_one() {
    let t0: u64 = 1_000_000;
    let mut rc = RateCounter::new();
    rc.increment_at(500, t0);
    rc.increment_at(500, t0 + 30_000);
    assert_eq!(rc.bytes_per_min(), 1000);
    assert_eq!(rc.count_per_min(), 2);
    rc.truncate(t0 + 61_000);
    assert_eq!(rc.bytes_per_min(), 500);
    assert_eq!(rc.count_per_min(), 1);
}

#[test]
fn window_boundary_is_exact() {
    let t: u64 = 1_000_000;

    let mut rc = RateCounter::new();
    rc.increment_at(10, t);
    rc.truncate(t + 59_999);
    assert_eq!(rc.count_per_min(), 1);
    assert_eq!(rc.bytes_per_min(), 10);

    rc.truncate(t + 60_000);
    assert_eq!(rc.count_per_min(), 1);

    rc.truncate(t + 60_001);
    assert_eq!(rc.count_per_min(), 0);
    assert_eq!(rc.bytes_per_min(), 0);
}

#[test]
fn zero_byte_transfer_still_counts() {
    let mut rc = RateCounter::new();
    rc.increment(0);
    let data = rc.get_bytes_per_min_and_count_per_min_and_truncate();
    assert_eq!(data.bytes_per_min, 0);
    assert_eq!(data.count_per_min, 1);
}

#[test]
fn clock_moving_backward_evicts_nothing() {
    let t0: u64 = 1_000_000;
    let mut rc = RateCounter::new();
    rc.increment_at(100, t0);
    rc.truncate(t0 - 10_000);
    assert_eq!(rc.bytes_per_min(), 100);
    assert_eq!(rc.count_per_min(), 1);
}

#[test]
fn eviction_sweeps_oldest_first() {
    let t0: u64 = 1_000_000;
    let mut rc = RateCounter::new();
    rc.increment_at(1, t0);
    rc.increment_at(2, t0 + 10_000);
    rc.increment_at(4, t0 + 20_000);
    assert_eq!(rc.bytes_per_min(), 7);
    assert_eq!(rc.count_per_min(), 3);
    rc.truncate(t0 + 70_001);
    assert_eq!(rc.bytes_per_min(), 4);
    assert_eq!(rc.count_per_min(), 1);
}

#[test]
fn truncate_before_window_length_of_time_keeps_all() {
    let mut rc = RateCounter::new();
    rc.increment_at(9, 5);
    rc.truncate(100);
    assert_eq!(rc.bytes_per_min(), 9);
    assert_eq!(rc.count_per_min(), 1);
}
