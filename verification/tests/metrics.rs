use h_at_h_rs::metrics::{format_bytes, format_duration, HahMetrics, MetricsCollector, Ratio};

fn value(r: Ratio) -> f64 {
    r.numerator as f64 / r.denominator as f64
}

fn formatted(bytes: u64) -> String {
    const KB: u64 = 1024;
    const MB: u64 = KB * 1024;
    const GB: u64 = MB * 1024;
    const TB: u64 = GB * 1024;
    if bytes >= TB {
        format!("{:.2} TB", bytes as f64 / TB as f64)
    } else if bytes >= GB {
        format!("{:.2} GB", bytes as f64 / GB as f64)
    } else if bytes >= MB {
        format!("{:.2} MB", bytes as f64 / MB as f64)
    } else if bytes >= KB {
        format!("{:.2} KB", bytes as f64 / KB as f64)
    } else {
        format!("{} B", bytes)
    }
}

#[test]
fn bytes_are_formatted() {
    assert_eq!(format_bytes(0), "0 B");
    assert_eq!(format_bytes(1023), "1023 B");
    assert_eq!(format_bytes(1024), "1.00 KB");
    assert_eq!(format_bytes(1536), "1.50 KB");
    assert_eq!(format_bytes(1048576), "1.00 MB");
    assert_eq!(format_bytes(5 * 1024 * 1024 * 1024), "5.00 GB");
    assert_eq!(format_bytes(1099511627776), "1.00 TB");
    assert_eq!(format_bytes(u64::MAX), "16777216.00 TB");
}

#[test]
fn bytes_are_formatted_as_doubles_are() {
    let mut n: u64 = 12345;
    for _ in 0..3000 {
        n = n.wrapping_mul(6364136223846793005).wrapping_add(1442695040888963407);
        for shift in [0, 7, 13, 21, 31, 41, 50] {
            let bytes = n >> shift;
            assert_eq!(format_bytes(bytes), formatted(bytes));
        }
    }
    for eighth in 0..4096u64 {
        let bytes = 1024 * 1024 + eighth * 1024 * 128;
        assert_eq!(format_bytes(bytes), formatted(bytes));
        let bytes = 1024 + eighth;
        assert_eq!(format_bytes(bytes), formatted(bytes));
    }
}

#[test]
fn durations_are_formatted() {
    assert_eq!(format_duration(0), "0s");
    assert_eq!(format_duration(59), "59s");
    assert_eq!(format_duration(60), "1m 0s");
    assert_eq!(format_duration(3600), "1h 0m 0s");
    assert_eq!(format_duration(3661), "1h 1m 1s");
    assert_eq!(format_duration(86400), "1d 0h 0m");
    assert_eq!(format_duration(90061), "1d 1h 1m");
}

#[test]
fn trust_of_new_clients() {
    let mut m = MetricsCollector::new(0, 0);
    assert_eq!(value(m.calculate_trust()), 1.0);
    m.record_failed_serve();
    assert_eq!(value(m.calculate_trust()), 0.9);
    for _ in 0..50 {
        m.record_failed_serve();
        m.record_successful_serve(1);
    }
    assert_eq!(m.successful_serves + m.failed_serves, 101);
    assert_eq!(value(m.calculate_trust()), 0.9);
    for _ in 0..49 {
        m.record_failed_serve();
    }
    assert_eq!(m.failed_serves, 100);
    assert_eq!(value(m.calculate_trust()), 0.5);
    for _ in 0..951 {
        m.record_failed_serve();
    }
    assert_eq!(value(m.calculate_trust()), 50.0 / 1101.0);
    assert_eq!(m.calculate_trust(), m.success_rate());
}

#[test]
fn trust_never_falls_on_a_success_nor_rises_on_a_failure() {
    for failures in [0, 1, 98, 99, 100, 998, 999, 1000, 1500] {
        let mut m = MetricsCollector::new(0, 0);
        for _ in 0..failures {
            let before = value(m.calculate_trust());
            m.record_failed_serve();
            assert!(value(m.calculate_trust()) <= before);
        }
        for _ in 0..2000 {
            let before = value(m.calculate_trust());
            m.record_successful_serve(1);
            assert!(value(m.calculate_trust()) >= before);
            let mut failed = m;
            failed.record_failed_serve();
            assert!(value(failed.calculate_trust()) <= value(m.calculate_trust()));
        }
    }
    let mut m = MetricsCollector::new(0, 0);
    for _ in 0..99 {
        m.record_failed_serve();
    }
    assert_eq!(m.calculate_trust(), Ratio { numerator: 9, denominator: 10 });
    m.record_successful_serve(1);
    assert_eq!(m.calculate_trust(), Ratio { numerator: 9, denominator: 10 });
}

#[test]
fn trust_between_one_hundred_and_one_thousand() {
    let mut m = MetricsCollector::new(0, 0);
    for _ in 0..100 {
        m.record_failed_serve();
    }
    assert_eq!(m.calculate_trust(), Ratio { numerator: 1, denominator: 2 });
    for _ in 0..300 {
        m.record_successful_serve(10);
    }
    assert_eq!(m.calculate_trust(), Ratio { numerator: 300, denominator: 400 });
    assert_eq!(m.bytes_served, 3000);
}

#[test]
fn quality_is_the_mean_of_hits_and_trust() {
    let mut m = MetricsCollector::new(0, 0);
    let one = Ratio { numerator: 1, denominator: 1 };
    m.record_failed_serve();
    assert_eq!(m.calculate_quality(), (one, one));
    m.record_cache_hit();
    m.record_cache_hit();
    m.record_cache_hit();
    m.record_cache_miss();
    let (hits, trust) = m.calculate_quality();
    assert_eq!((value(hits) + value(trust)) / 2.0, (0.75 + 0.9) / 2.0);
    assert_eq!(m.cache_hit_rate(), Ratio { numerator: 3, denominator: 4 });
}

#[test]
fn peak_covers_current_connections() {
    let mut m = MetricsCollector::new(0, 0);
    m.record_connection();
    m.record_connection();
    m.record_connection_closed();
    m.record_connection();
    assert_eq!((m.current_connections, m.peak_connections, m.connections_handled), (2, 2, 3));
    m.record_connection_closed();
    m.record_connection_closed();
    assert_eq!((m.current_connections, m.peak_connections), (0, 2));
}

#[test]
fn reset_keeps_the_peak() {
    let mut m = MetricsCollector::new(7, 9);
    m.record_request();
    m.record_connection();
    m.record_error();
    m.record_bytes_received(5);
    m.record_heartbeat(true);
    m.record_heartbeat(false);
    m.record_static_range_serve();
    m.record_static_range_download();
    m.record_response_time(20);
    m.record_response_time(21);
    let metrics = m.get_metrics(7 + 3_500_000_000, 99);
    assert_eq!(metrics.uptime_seconds, 3);
    assert_eq!((metrics.start_time, metrics.last_activity), (9, 99));
    assert_eq!((metrics.heartbeats_sent, metrics.heartbeats_success), (2, 1));
    assert_eq!(metrics.avg_response_time_ms, Ratio { numerator: 41, denominator: 2 });
    assert_eq!((metrics.static_range_serves, metrics.static_range_downloads), (1, 1));
    assert_eq!((metrics.error_count, metrics.bytes_received, metrics.total_requests), (1, 5, 1));
    m.reset();
    assert_eq!((m.total_requests, m.current_connections, m.error_count), (0, 0, 0));
    assert_eq!((m.peak_connections, m.responses, m.start_time), (1, 2, 9));
}

#[test]
fn default_metrics_are_zero() {
    let m = HahMetrics::default();
    assert_eq!(value(m.trust), 1.0);
    assert_eq!(value(m.quality.0) + value(m.quality.1), 2.0);
    assert_eq!(value(m.avg_response_time_ms), 0.0);
    assert_eq!(MetricsCollector::default().total_requests, 0);
}
