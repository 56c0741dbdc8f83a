use h_at_h_rs::cache::CacheStats;
use h_at_h_rs::throttle::BandwidthStats;
use h_at_h_rs::tui::{
    bandwidth_rows, cache_lines, cache_rows, display_title, entry_colour, metrics_lines,
    popup_origin, progress_text, score_colour, status_colour, status_lines, Colour, Key, TuiData,
    TuiState,
};

#[test]
fn keys_change_the_state() {
    let mut s = TuiState::default();
    assert!(s.handle_key(Key::Char('q')) && s.handle_key(Key::Esc));
    for tab in [1, 2, 3, 0, 1] {
        assert!(!s.handle_key(Key::Tab));
        assert_eq!(s.selected_tab, tab);
    }
    for tab in [0, 3, 2] {
        s.handle_key(Key::Left);
        assert_eq!(s.selected_tab, tab);
    }
    s.handle_key(Key::Right);
    s.handle_key(Key::BackTab);
    assert_eq!(s.selected_tab, 2);
    for (key, tab) in [('1', 0), ('4', 3), ('2', 1), ('3', 2), ('5', 2)] {
        s.handle_key(Key::Char(key));
        assert_eq!(s.selected_tab, tab);
    }
    s.handle_key(Key::Char('?'));
    assert!(s.show_help);
    s.handle_key(Key::Other);
    assert!(s.show_help);
    s.handle_key(Key::Char('h'));
    assert!(!s.show_help);
    let keys = [Key::Up, Key::Down, Key::Char('j'), Key::PageDown, Key::Char('k'), Key::PageUp];
    let offsets = [0, 1, 2, 12, 11, 1];
    for (key, offset) in keys.into_iter().zip(offsets) {
        s.handle_key(key);
        assert_eq!(s.log_scroll, offset);
    }
    s.handle_key(Key::Home);
    assert_eq!(s.log_scroll, 0);
}

#[test]
fn history_holds_sixty_points() {
    let mut s = TuiState::default();
    assert_eq!(s.bandwidth_title(), " Bandwidth: 0 B/s (max: 1 B/s) ");
    for i in 0..70 {
        s.record_bps(if i == 30 { 5000 } else { i });
    }
    assert_eq!(s.bps_history.len(), 60);
    assert_eq!((s.bps_history[0], s.bps_history[59]), (10, 69));
    assert_eq!(s.bandwidth_title(), " Bandwidth: 69 B/s (max: 4.88 KB/s) ");
}

#[test]
fn log_view_stays_within_the_log() {
    let mut s = TuiState::default();
    s.log_scroll = 100;
    assert_eq!(s.log_window(30, 12), (20, 10));
    assert_eq!(s.log_title(30), " Logs [21/30] ");
    assert_eq!(s.log_window(5, 12), (0, 10));
    assert_eq!(s.log_title(0), " Logs [1/1] ");
}

#[test]
fn colours() {
    assert_eq!(status_colour("completed"), Colour::Green);
    assert_eq!(status_colour("downloading"), Colour::Cyan);
    assert_eq!(status_colour("failed"), Colour::Red);
    assert_eq!(status_colour("pending"), Colour::Yellow);
    assert_eq!(entry_colour("an error and a warning"), Colour::Red);
    assert_eq!(entry_colour("WARN x"), Colour::Yellow);
    assert_eq!(entry_colour("info"), Colour::Cyan);
    assert_eq!(entry_colour("debug"), Colour::White);
    assert_eq!(score_colour(90), Colour::Green);
    assert_eq!(score_colour(89), Colour::Yellow);
    assert_eq!(score_colour(69), Colour::Red);
}

#[test]
fn texts() {
    assert_eq!(display_title(&"x".repeat(30)), "x".repeat(30));
    assert_eq!(display_title(&"x".repeat(31)), format!("{}...", "x".repeat(27)));
    assert_eq!(progress_text(3, 10), "3/10");
    assert_eq!(popup_origin(80, 24, 50, 15), (15, 4));
    assert_eq!(popup_origin(40, 10, 50, 15), (0, 0));
}

#[test]
fn panels() {
    let mut data = TuiData::default();
    data.client_id = "7".to_string();
    data.host = "h".to_string();
    data.port = 80;
    data.static_ranges_count = 3;
    data.static_ranges_enabled = true;
    data.metrics.heartbeats_sent = 2;
    data.metrics.bytes_served = 2048;
    assert_eq!(
        status_lines(&data),
        vec![
            "Client ID:     7",
            "Server:        h:80",
            "Static Ranges: 3 (enabled)",
            "Proxy Mode:    disabled",
            "Connections:   0 (peak: 0)",
        ]
    );
    assert_eq!(
        metrics_lines(&data.metrics, "100.0", "1.5"),
        vec![
            "Requests:      0",
            "Success Rate:  100.0%",
            "Bytes Served:  2.00 KB",
            "Avg Response:  1.5ms",
            "Heartbeats:    0/2",
        ]
    );
    let stats = CacheStats { total_files: 1, total_size: 1024, hits: 3, misses: 4, bytes_served: 5 };
    assert_eq!(
        cache_lines(&stats, "42.9"),
        vec![
            "Total Files:   1",
            "Cache Size:    1.00 KB",
            "Cache Hits:    3",
            "Cache Misses:  4",
            "Hit Rate:      42.9%",
            "Bytes Served:  5 B",
        ]
    );
    let rows = cache_rows(&stats, "42.86");
    assert_eq!(rows.len(), 6);
    assert_eq!(rows[4], ("Hit Rate", "42.86%".to_string()));
    let mut bandwidth = BandwidthStats::default();
    bandwidth.peak_speed = 1536;
    let rows = bandwidth_rows(&bandwidth, "0.5");
    assert_eq!(rows[0], ("Current Speed", "0 B/s".to_string()));
    assert_eq!(rows[4], ("Average Speed", "0.5 KB/s".to_string()));
    assert_eq!(rows[5], ("Peak Speed", "1.50 KB/s".to_string()));
    assert_eq!(rows[6], ("Requests Served", "0".to_string()));
}
