use h_at_h_rs::throttle::{
    BandwidthThrottler, RequestRateLimiter, WindowedCounter, HOUR, RETRY_DELAY, SECOND,
};

#[test]
fn test_throttler_unlimited() {
    let mut throttler = BandwidthThrottler::unlimited(0);
    assert!(throttler.can_send(1_000_000, 0));
    throttler.record_transfer(1_000_000, 0);
    assert_eq!(throttler.total_bytes, 1_000_000);
}

#[test]
fn test_throttler_limited() {
    let mut throttler = BandwidthThrottler::new(1000, -1, 0); // 1000 bytes/sec
    assert!(throttler.can_send(500, 0));
    throttler.record_transfer(500, 0);
    assert!(throttler.can_send(500, 0));
    throttler.record_transfer(500, 0);
    // Now at limit, should not allow more
    assert!(!throttler.can_send(100, 0));
}

#[test]
fn counter_forgets_what_leaves_the_window() {
    let mut counter = WindowedCounter::new(SECOND);
    counter.add(10, 0);
    counter.add(20, SECOND / 2);
    assert_eq!(counter.get_total(SECOND), 30);
    assert_eq!(counter.get_total(SECOND + 1), 20);
    assert_eq!(counter.get_total(SECOND + SECOND / 2 + 1), 0);
}

#[test]
fn counter_has_room_up_to_its_type() {
    let mut counter = WindowedCounter::new(SECOND);
    counter.add(u64::MAX, 0);
    assert!(counter.can_add(0));
    assert!(!counter.can_add(1));
    counter.prune(2 * SECOND);
    assert!(counter.can_add(1));
}

#[test]
fn limit_is_free_again_a_second_later() {
    let mut throttler = BandwidthThrottler::new(1000, -1, 0);
    assert_eq!(throttler.throttle_and_record(1000, 0), None);
    assert_eq!(throttler.throttle_and_record(1, SECOND), Some(RETRY_DELAY));
    assert_eq!(throttler.throttle_and_record(1, SECOND + 1), None);
    assert_eq!(throttler.requests_served, 2);
    assert_eq!(throttler.total_bytes, 1001);
    assert_eq!(throttler.peak_speed, 1000);
}

#[test]
fn server_limit_and_hourly_limit_hold_too() {
    let mut throttler = BandwidthThrottler::new(-1, 100, 0);
    throttler.set_server_throttle(50);
    assert!(!throttler.can_send(51, 0));
    assert!(throttler.can_send(50, 0));
    throttler.record_transfer(50, 0);
    assert!(throttler.can_send(50, 2 * SECOND));
    throttler.record_transfer(50, 2 * SECOND);
    assert!(!throttler.can_send(1, 4 * SECOND));
    assert_eq!(throttler.hourly_remaining(4 * SECOND), Some(0));
    assert_eq!(throttler.hourly_remaining(HOUR + SECOND), Some(50));
    assert!(throttler.can_send(50, HOUR + SECOND));
    assert_eq!(throttler.hourly_remaining(HOUR + 3 * SECOND), Some(100));
}

#[test]
fn limits_that_are_not_positive_do_not_limit() {
    let mut throttler = BandwidthThrottler::new(0, 0, 0);
    assert!(throttler.can_send(u64::MAX, 0));
    assert_eq!(throttler.hourly_remaining(0), Some(0));
    throttler.set_max_bph(-1);
    assert_eq!(throttler.hourly_remaining(0), None);
    throttler.set_max_bps(10);
    assert!(!throttler.can_send(u64::MAX, 0));
}

#[test]
fn near_a_limit_as_doubles_compare() {
    for limit in [1i64, 7, 10, 11, 999, 1000, 1 << 53, (1 << 53) + 1, i64::MAX] {
        for part in 0..=20u64 {
            let current = (limit as u128 * part as u128 / 20) as u64;
            for bytes in [current.saturating_sub(1), current, current + 1] {
                let mut throttler = BandwidthThrottler::new(limit, -1, 0);
                throttler.record_transfer(bytes, 0);
                let expected = bytes as f64 > limit as f64 * 0.9;
                assert_eq!(throttler.is_throttled(0), expected, "{} of {}", bytes, limit);
            }
        }
    }
}

#[test]
fn at_the_limit_is_throttled() {
    let mut throttler = BandwidthThrottler::new(-1, 5000, 0);
    assert!(!throttler.is_throttled(0));
    throttler.record_transfer(5000, 0);
    assert!(throttler.is_throttled(0));
}

#[test]
fn statistics_count_windows_and_totals() {
    let mut throttler = BandwidthThrottler::new(-1, -1, 5);
    throttler.record_transfer(100, 10);
    throttler.record_transfer(30, 10 + 2 * SECOND);
    let stats = throttler.get_stats(10 + 2 * SECOND);
    assert_eq!(stats.bytes_per_second, 30);
    assert_eq!(stats.bytes_per_minute, 130);
    assert_eq!(stats.bytes_per_hour, 130);
    assert_eq!(stats.total_bytes, 130);
    assert_eq!(stats.elapsed, 5 + 2 * SECOND);
    assert_eq!(stats.peak_speed, 100);
    assert_eq!(stats.requests_served, 2);
    assert_eq!(throttler.current_bps(10 + 2 * SECOND), 30);
    throttler.reset();
    let stats = throttler.get_stats(10 + 2 * SECOND);
    assert_eq!((stats.total_bytes, stats.peak_speed, stats.bytes_per_hour), (0, 0, 0));
}

#[test]
fn default_throttler_has_no_limits() {
    let mut throttler = BandwidthThrottler::default();
    assert!(throttler.can_send(u64::MAX, 0));
    assert!(throttler.can_record(u64::MAX));
}

#[test]
fn requests_keep_their_distance() {
    let mut limiter = RequestRateLimiter::new(100);
    assert_eq!(limiter.acquire(1000), None);
    assert_eq!(limiter.acquire(1030), Some(70));
    assert_eq!(limiter.request_count(), 1);
    limiter.acquire_after_wait(1100);
    assert_eq!(limiter.request_count(), 2);
    assert_eq!(limiter.acquire(1200), None);
    assert_eq!(limiter.request_count(), 3);
}

#[test]
fn statistics_are_ordered() {
    let second = 1_000_000_000;
    let mut t = BandwidthThrottler::unlimited(0);
    let transfers = [(0, 5), (second / 2, 70), (3 * second, 9), (90 * second, 1), (91 * second, 2)];
    for (now, bytes) in transfers {
        t.record_transfer(bytes, now);
        for later in [now, now + second + 1, now + 61 * second, now + 3601 * second] {
            let mut copy = BandwidthThrottler::unlimited(0);
            for (time, size) in transfers.iter().filter(|(time, _)| *time <= now) {
                copy.record_transfer(*size, *time);
            }
            copy.is_throttled(later);
            let s = copy.get_stats(later);
            assert!(s.bytes_per_second <= s.bytes_per_minute);
            assert!(s.bytes_per_minute <= s.bytes_per_hour);
            assert!(s.bytes_per_hour <= s.total_bytes);
            assert!(s.bytes_per_second <= s.peak_speed && s.peak_speed <= s.total_bytes);
        }
    }
    let s = t.get_stats(91 * second);
    assert_eq!((s.bytes_per_second, s.bytes_per_minute, s.bytes_per_hour), (3, 3, 87));
    assert_eq!((s.total_bytes, s.peak_speed), (87, 75));
}
