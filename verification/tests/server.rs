use h_at_h_rs::api::{ApiError, HahApiClient};
use h_at_h_rs::archive::ArchiveResolution;
use h_at_h_rs::cache::{CacheManager, CachedFile};
use h_at_h_rs::config::Config;
use h_at_h_rs::metrics::MetricsCollector;
use h_at_h_rs::server::{
    check_data, command_of, command_reply, content_type_for, get_gallery_info, get_status,
    hash_of_file, list_limit, proxy_answered, queue_archive_download, queue_gallery_download,
    serve_data, serve_file_internal, serve_proxied, server_command, speed_test, speed_test_size,
    ApiResponse, ArchiveDownloadParams, CommandAction, FileRequest, FileVerificationTracker,
    FloodControl, FloodControlEntry, GalleryDownloadParams, ServeStep,
};
use h_at_h_rs::throttle::BandwidthThrottler;

const ABC: &str = "a9993e364706816aba3e25717850c26c9cd0d89d";

fn store(cache: &mut CacheManager) -> CachedFile {
    let (checked, _) = cache.prepare_store(ABC, b"abc").unwrap();
    cache.store_file(&checked, "p", "png", 0).unwrap()
}

fn params(list: &[(&str, &str)]) -> Vec<(String, String)> {
    list.iter().map(|(k, v)| (k.to_string(), v.to_string())).collect()
}

fn config() -> Config {
    let mut config = Config::default();
    config.client_id = "123".to_string();
    config.client_key = "key".to_string();
    config
}

fn no_query() -> FileRequest {
    FileRequest { keystamp: None, fileindex: None, xres: None }
}

#[test]
fn eleventh_rapid_connection_is_refused() {
    let mut flood = FloodControl::new();
    let now = 1_000_000;
    for i in 0..10 {
        assert!(flood.check_and_record("8.8.8.8", now + i * 999));
    }
    assert!(!flood.check_and_record("8.8.8.8", now + 10 * 999));
    let blocked = now + 10 * 999;
    assert!(!flood.check_and_record("8.8.8.8", blocked + 59_999));
    assert!(flood.check_and_record("8.8.8.8", blocked + 60_000));
    assert!(flood.check_and_record("9.9.9.9", blocked));
}

#[test]
fn one_connection_a_second_is_never_refused() {
    let mut flood = FloodControl::new();
    for i in 0..1000 {
        assert!(flood.check_and_record("8.8.8.8", 1_000_000 + i * 1000));
    }
}

#[test]
fn local_network_is_never_refused() {
    let mut flood = FloodControl::new();
    for _ in 0..100 {
        assert!(flood.check_and_record("192.168.0.7", 5));
    }
    for local in [
        "localhost", "127.0.0.1", "10.1.2.3", "192.168.1.1", "172.16.0.1", "172.29.9.9",
        "172.31.0.1", "169.254.1.1", "::1", "0:0:0:0:0:0:0:1", "fc00::1", "fd12::",
    ] {
        assert!(flood.is_local_network(local), "{}", local);
    }
    for other in [
        "8.8.8.8", "172.15.0.1", "172.32.0.1", "172.3.0.1", "192.169.0.1", "11.0.0.1",
        "2001:db8::1", "", "x127.0.0.1", "127.\n",
    ] {
        assert!(!flood.is_local_network(other), "{:?}", other);
    }
}

#[test]
fn stale_entries_are_pruned() {
    let mut entry = FloodControlEntry::new();
    assert!(entry.hit(100_000));
    assert!(!entry.is_stale(160_000));
    assert!(entry.is_stale(160_001));
    assert!(!entry.is_blocked(100_000));
    let mut flood = FloodControl::new();
    for _ in 0..11 {
        flood.check_and_record("8.8.8.8", 100_000);
    }
    flood.prune_stale(159_999);
    assert!(!flood.check_and_record("8.8.8.8", 159_999));
    flood.prune_stale(300_000);
    assert!(flood.check_and_record("8.8.8.8", 100_000));
}

#[test]
fn counts_decay_with_time() {
    let mut entry = FloodControlEntry { connect_count: 9, last_connect: 10_000, block_until: 0 };
    assert!(entry.hit(13_999));
    assert_eq!((entry.connect_count, entry.last_connect, entry.block_until), (7, 13_999, 0));
    let mut entry = FloodControlEntry { connect_count: 10, last_connect: 10_000, block_until: 0 };
    assert!(!entry.hit(10_999));
    assert_eq!((entry.connect_count, entry.block_until), (11, 70_999));
    let mut entry = FloodControlEntry { connect_count: 3, last_connect: 10_000, block_until: 0 };
    assert!(entry.hit(7_500));
    assert_eq!(entry.connect_count, 6);
}

#[test]
fn verifications_are_rare() {
    let mut tracker = FileVerificationTracker::new();
    let now = 1_700_000_000_000;
    assert!(tracker.should_verify("h", now));
    assert!(tracker.can_verify_now(now));
    assert!(!tracker.can_verify_now(now + 1999));
    assert!(tracker.can_verify_now(now + 2000));
    tracker.record_verification("h", now);
    let week = 7 * 24 * 60 * 60 * 1000;
    assert!(!tracker.should_verify("h", now + week));
    assert!(tracker.should_verify("h", now + week + 1));
    assert!(tracker.should_verify("other", now));
}

#[test]
fn cached_file_is_served() {
    let mut metrics = MetricsCollector::new(0, 0);
    let mut cache = CacheManager::new(config());
    store(&mut cache);
    let client = HahApiClient::new(config());
    let mut tracker = FileVerificationTracker::new();
    let id = format!("{}_3_1x1_png", ABC);
    let step =
        serve_file_internal(&mut metrics, &mut cache, &client, &id, "xres=org", &no_query(), 50);
    let file = match step {
        ServeStep::Read(file) => file,
        _ => panic!(),
    };
    assert_eq!((file.path.as_str(), file.last_accessed, file.hit_count), ("p", 50, 1));
    assert!(check_data(&mut metrics, &mut tracker, ABC, &file, Some(b"abc"), 5000).is_none());
    assert!(!tracker.should_verify(ABC, 5000));
    let kind = serve_data(&mut metrics, 3, 12, &file.file_type);
    assert_eq!(kind, "image/png");
    assert_eq!((metrics.total_requests, metrics.successful_serves, metrics.failed_serves), (1, 1, 0));
    assert_eq!((metrics.cache_hits, metrics.bytes_served, metrics.response_time_ms), (1, 3, 12));
    assert_eq!((metrics.current_connections, metrics.connections_handled), (0, 1));
}

#[test]
fn damaged_file_is_not_served() {
    let mut cache = CacheManager::new(config());
    let file = store(&mut cache);
    let mut tracker = FileVerificationTracker::new();
    let mut metrics = MetricsCollector::new(0, 0);
    metrics.record_connection();
    let reply = check_data(&mut metrics, &mut tracker, ABC, &file, None, 5000).unwrap();
    assert_eq!((reply.status, reply.body), (500, "File read error"));
    let reply = check_data(&mut metrics, &mut tracker, ABC, &file, Some(b"ab"), 5000).unwrap();
    assert_eq!((reply.status, reply.body), (404, "File corrupted"));
    let reply = check_data(&mut metrics, &mut tracker, ABC, &file, Some(b"abd"), 5000).unwrap();
    assert_eq!((reply.status, reply.body), (404, "File corrupted"));
    // verified a moment ago: not looked at again
    assert!(check_data(&mut metrics, &mut tracker, ABC, &file, Some(b"abd"), 5001).is_none());
    assert_eq!((metrics.failed_serves, metrics.error_count), (3, 3));
    assert!(tracker.should_verify(ABC, 5000));
}

#[test]
fn requests_are_refused() {
    let mut metrics = MetricsCollector::new(0, 0);
    let mut cache = CacheManager::new(config());
    let client = HahApiClient::new(config());
    let mut serve = |id: &str, additional: &str, keystamp: Option<&str>| {
        let query = FileRequest {
            keystamp: keystamp.map(str::to_string),
            fileindex: None,
            xres: None,
        };
        let t = 1_700_000_000;
        match serve_file_internal(&mut metrics, &mut cache, &client, id, additional, &query, t) {
            ServeStep::Respond(reply) => (reply.status, reply.body),
            _ => panic!(),
        }
    };
    let id = "abcdef0123_1234_100x200_jpg";
    assert_eq!(serve("_x", "", None), (400, "Invalid file ID"));
    assert_eq!(serve(id, "keystamp=17", None), (403, "Invalid keystamp format"));
    assert_eq!(serve(id, "keystamp=1700000000-0", None), (403, "Invalid request"));
    assert_eq!(serve(id, "", Some("bad")), (403, "Invalid keystamp format"));
    assert_eq!(serve(id, "", None), (404, "File not in cache"));
    assert_eq!(serve(id, "keystamp=1700000000-a569920979", Some("bad")), (404, "File not in cache"));
    assert_eq!(
        serve(id, "keystamp=x;keystamp=1700000900-a569920979", None),
        (403, "Invalid request")
    );
    assert_eq!(metrics.total_requests, 7);
    assert_eq!((metrics.failed_serves, metrics.cache_misses), (7, 2));
    assert_eq!(metrics.current_connections, 0);
}

#[test]
fn missing_file_is_asked_for_in_proxy_mode() {
    let mut c = config();
    c.proxy_mode = true;
    let mut metrics = MetricsCollector::new(0, 0);
    let mut cache = CacheManager::new(c);
    let client = HahApiClient::new(config());
    let step = serve_file_internal(&mut metrics, &mut cache, &client, "h", "", &no_query(), 0);
    assert!(matches!(step, ServeStep::AskProxy));
    assert_eq!(metrics.failed_serves, 0);
    assert_eq!(metrics.cache_misses, 1);
    let step = proxy_answered(&mut metrics, Ok(Some("http://x/f".to_string())));
    let url = match step {
        ServeStep::Fetch(url) => url,
        _ => panic!(),
    };
    assert_eq!(url, "http://x/f");
    let reply = serve_proxied(&mut metrics, Some(url), Some(b"abc"));
    assert_eq!((reply.status, reply.body.as_slice()), (200, &b"abc"[..]));
    assert_eq!((metrics.successful_serves, metrics.bytes_served), (1, 3));
    assert_eq!((metrics.failed_serves, metrics.current_connections), (0, 0));
}

#[test]
fn file_that_cannot_be_proxied_is_missing() {
    for answer in [Ok(None), Err(ApiError::Network("x".to_string()))] {
        let mut metrics = MetricsCollector::new(0, 0);
        match proxy_answered(&mut metrics, answer) {
            ServeStep::Respond(reply) => {
                assert_eq!((reply.status, reply.body), (404, "File not in cache"))
            }
            _ => panic!(),
        }
        assert_eq!(metrics.failed_serves, 1);
    }
    let some_url = || Some("http://x/f".to_string());
    let abc: &[u8] = b"abc";
    for (url, body) in [(some_url(), None), (None, Some(abc)), (None, None)] {
        let mut metrics = MetricsCollector::new(0, 0);
        let reply = serve_proxied(&mut metrics, url, body);
        assert_eq!((reply.status, reply.body.as_slice()), (404, &b"File not in cache"[..]));
        assert_eq!((metrics.failed_serves, metrics.successful_serves), (1, 0));
    }
}

#[test]
fn hashes_stand_before_the_first_underscore() {
    assert_eq!(hash_of_file("h_1_2"), "h");
    assert_eq!(hash_of_file("h"), "h");
    assert_eq!(hash_of_file("_h"), "");
    assert_eq!(hash_of_file(""), "");
}

#[test]
fn content_types() {
    assert_eq!(content_type_for("jpg"), "image/jpeg");
    assert_eq!(content_type_for("jpeg"), "image/jpeg");
    assert_eq!(content_type_for("gif"), "image/gif");
    assert_eq!(content_type_for("webp"), "image/webp");
    assert_eq!(content_type_for("unknown"), "application/octet-stream");
}

#[test]
fn speed_tests_are_capped() {
    let mut t = BandwidthThrottler::unlimited(0);
    assert_eq!(speed_test(&mut t, "5000.bin", 0), 5000);
    assert_eq!(speed_test(&mut t, "x", 0), 1000);
    assert_eq!(speed_test(&mut t, "99999999", 0), 10_000_000);
    assert_eq!(t.total_bytes, 10_006_000);
}

#[test]
fn only_speed_tests_need_room() {
    let mut t = BandwidthThrottler::unlimited(0);
    t.record_transfer(u64::MAX - 10, 0);
    assert_eq!(speed_test_size("10"), 10);
    assert!(t.can_record(10) && !t.can_record(11));
    let alive = params(&[("cmd", "still_alive")]);
    assert_eq!(command_of(&alive, false), CommandAction::Acknowledge);
    assert_eq!(server_command(&alive, false, &mut t, 0), CommandAction::Acknowledge);
    let test = params(&[("cmd", "speed_test"), ("size", "4")]);
    assert_eq!(command_of(&test, false), CommandAction::SendZeros(4));
    assert_eq!(server_command(&test, false, &mut t, 0), CommandAction::SendZeros(4));
    assert_eq!(speed_test(&mut t, "6", 0), 6);
    assert_eq!(t.total_bytes, u64::MAX);
}

#[test]
fn pruning_is_not_noticed() {
    let run = |prune: bool| {
        let mut f = FloodControl::new();
        let mut answers = Vec::new();
        for _ in 0..11 {
            f.check_and_record("1.2.3.4", 100_000);
        }
        f.check_and_record("5.6.7.8", 100_000);
        for now in [100_500, 159_999, 160_000, 160_001, 161_000, 300_000] {
            if prune {
                f.prune_stale(now);
            }
            for ip in ["1.2.3.4", "5.6.7.8"] {
                for _ in 0..11 {
                    answers.push(f.check_and_record(ip, now));
                }
            }
        }
        answers
    };
    assert_eq!(run(true), run(false));
    assert_eq!(run(true)[..3], [false, false, false]);
}

#[test]
fn commands_are_answered() {
    let mut t = BandwidthThrottler::unlimited(0);
    let mut run = |list: &[(&str, &str)], proxy: bool| server_command(&params(list), proxy, &mut t, 0);
    let size = run(&[("cmd", "speed_test"), ("size", "12")], false);
    assert_eq!(size, CommandAction::SendZeros(12));
    assert_eq!(run(&[("cmd", "speed_test")], false), CommandAction::SendZeros(1000));
    assert_eq!(run(&[("cmd", "still_alive")], false), CommandAction::Acknowledge);
    assert_eq!(run(&[("cmd", "cache_stats")], false), CommandAction::CacheStats);
    assert_eq!(run(&[("cmd", "server_stat")], false), CommandAction::ServerStat);
    assert_eq!(run(&[("cmd", "refresh_settings")], false), CommandAction::Acknowledge);
    assert_eq!(run(&[("cmd", "start_downloader")], false), CommandAction::StartDownloader);
    assert_eq!(run(&[("cmd", "stop_downloader")], false), CommandAction::StopDownloader);
    assert_eq!(run(&[("cmd", "proxy_test")], true), CommandAction::ProxyOk);
    assert_eq!(run(&[("cmd", "proxy_test")], false), CommandAction::ProxyDisabled);
    assert_eq!(run(&[("cmd", "get_info")], false), CommandAction::Info);
    assert_eq!(run(&[], false), CommandAction::Unknown);
    assert_eq!(run(&[("cmd", "x"), ("cmd", "get_info")], false), CommandAction::Info);
    let set = run(&[("cmd", "throttle"), ("bytes", "700")], false);
    assert_eq!(set, CommandAction::Acknowledge);
    let kept = run(&[("cmd", "throttle"), ("bytes", "?")], false);
    assert_eq!(kept, CommandAction::Acknowledge);
    assert_eq!((t.server_throttle, t.total_bytes), (700, 1012));
    let reply = command_reply(CommandAction::Unknown).unwrap();
    assert_eq!((reply.status, reply.body), (400, "Unknown command"));
    assert_eq!(command_reply(CommandAction::StopDownloader).unwrap().body, "OK");
    assert_eq!(command_reply(CommandAction::ProxyDisabled).unwrap().body, "PROXY_DISABLED");
    assert!(command_reply(CommandAction::Info).is_none());
}

#[test]
fn gallery_downloads_are_asked_for() {
    let mut p = GalleryDownloadParams {
        url: None,
        gallery_id: Some("1".to_string()),
        gallery_token: None,
        start_page: Some(2),
        end_page: None,
    };
    assert_eq!(queue_gallery_download(false, &p).err(), Some("Gallery download is disabled"));
    assert_eq!(queue_gallery_download(true, &p).err(), Some("Missing gallery_id or gallery_token"));
    assert_eq!(get_gallery_info(&p).err(), Some("Missing parameters"));
    p.gallery_token = Some("ab".to_string());
    let request = queue_gallery_download(true, &p).ok().unwrap();
    assert_eq!((request.gallery_id.as_str(), request.gallery_token.as_str()), ("1", "ab"));
    assert_eq!((request.start_page, request.end_page, request.priority), (Some(2), None, 5));
    p.url = Some("https://e-hentai.org/g/77/cd/".to_string());
    assert_eq!(get_gallery_info(&p), Ok(("77".to_string(), "cd".to_string())));
    p.url = Some("nowhere".to_string());
    assert_eq!(queue_gallery_download(true, &p).err(), Some("Invalid gallery URL"));
}

#[test]
fn archive_downloads_are_asked_for() {
    let mut p = ArchiveDownloadParams {
        url: Some("https://e-hentai.org/g/77/cd/".to_string()),
        gallery_id: None,
        gallery_token: None,
        resolution: Some("780".to_string()),
    };
    let request = queue_archive_download(&p).ok().unwrap();
    assert_eq!((request.gallery_id.as_str(), request.resolution), ("77", ArchiveResolution::Res780));
    assert_eq!(request.or_token, None);
    p.resolution = Some("x".to_string());
    assert_eq!(queue_archive_download(&p).ok().unwrap().resolution, ArchiveResolution::Original);
    p.resolution = None;
    assert_eq!(queue_archive_download(&p).ok().unwrap().resolution, ArchiveResolution::Original);
    p.url = None;
    assert_eq!(queue_archive_download(&p).err(), Some("Missing gallery_id or gallery_token"));
    assert_eq!(list_limit(&params(&[("limit", "5")])), 5);
    assert_eq!(list_limit(&params(&[("limit", "x")])), 50);
    assert_eq!(list_limit(&params(&[])), 50);
}

#[test]
fn responses_hold_data_or_an_error() {
    let r = ApiResponse::success(5);
    assert_eq!((r.success, r.data, r.error), (true, Some(5), None));
    let r: ApiResponse<i32> = ApiResponse::error("no");
    assert_eq!((r.success, r.data, r.error), (false, None, Some("no".to_string())));
}

#[test]
fn status_is_put_together() {
    let mut cache = CacheManager::new(config());
    store(&mut cache);
    let mut metrics = MetricsCollector::new(0, 0);
    metrics.record_successful_serve(3);
    metrics.record_connection();
    let mut t = BandwidthThrottler::new(100, -1, 0);
    t.record_transfer(95, 0);
    let s = get_status(&config(), &cache, &metrics, &mut t, 1_000_000_000);
    assert_eq!((s.version.as_str(), s.client_id.as_str()), ("0.1.0", "123"));
    assert_eq!((s.cache_size_bytes, s.cache_files), (3, 1));
    assert_eq!((s.successful_serves, s.current_connections, s.peak_connections), (1, 1, 1));
    assert_eq!((s.bytes_per_second, s.bytes_per_hour, s.is_throttled), (95, 95, true));
    assert_eq!(s.uptime_seconds, 1);
    assert!(s.gallery_download_enabled && !s.static_ranges_enabled && !s.proxy_mode_enabled);
}
