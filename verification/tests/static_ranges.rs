use h_at_h_rs::api::{ApiError, ServerSettings};
use h_at_h_rs::cache::{CacheError, CacheManager};
use h_at_h_rs::config::Config;
use h_at_h_rs::static_ranges::{StaticRangeError, StaticRangeManager};

const ABC: &str = "a9993e364706816aba3e25717850c26c9cd0d89d";

fn manager() -> StaticRangeManager {
    let mut config = Config::default();
    config.client_id = "123".to_string();
    config.download_workers = 0;
    StaticRangeManager::new(&config)
}

fn settings() -> ServerSettings {
    let mut s = ServerSettings::default();
    s.request_server = "http://r".to_string();
    s
}

fn lines(list: &[&str]) -> Result<Vec<String>, ApiError> {
    Ok(list.iter().map(|s| s.to_string()).collect())
}

#[test]
fn ranges_are_assigned() {
    let mut m = manager();
    assert_eq!(m.download_workers, 1);
    let reply = lines(&["AB;7;1", "", "#x", "cd", "AB;7;1", "ef;300;0"]);
    let ranges = m.fetch_ranges(&settings(), reply, 99).unwrap();
    assert_eq!(ranges.len(), 4);
    assert_eq!((ranges[0].prefix.as_str(), ranges[0].priority), ("ab", 7));
    assert!(ranges[0].high_capacity);
    assert_eq!((ranges[1].priority, ranges[1].high_capacity), (5, false));
    assert_eq!(ranges[3].priority, 5);
    assert_eq!(m.get_assigned_ranges().len(), 3);
    assert_eq!((m.get_stats().total_ranges, m.get_stats().last_update), (4, 99));
    assert!(m.is_in_assigned_range("ABcc"));
    assert!(m.is_in_assigned_range("cd"));
    assert!(!m.is_in_assigned_range("c"));
    assert!(!m.is_in_assigned_range("00"));
    m.clear_ranges();
    assert!(!m.is_in_assigned_range("ABcc"));
    assert!(m.get_assigned_ranges().is_empty());
}

#[test]
fn empty_prefix_covers_every_hash() {
    let mut m = manager();
    m.fetch_ranges(&settings(), lines(&[";1"]), 0).unwrap();
    assert!(m.is_in_assigned_range(""));
    assert!(m.is_in_assigned_range("xyz"));
}

#[test]
fn without_server_there_are_no_ranges() {
    let mut m = manager();
    let r = m.fetch_ranges(&ServerSettings::default(), lines(&["ab"]), 5).unwrap();
    assert!(r.is_empty());
    assert_eq!(m.get_stats().last_update, 0);
    assert_eq!(m.files_request(&ServerSettings::default()), None);
    assert_eq!(
        m.files_request(&settings()),
        Some("http://r/servercmd?cmd=srfetch&cid=123".to_string())
    );
    match m.fetch_ranges(&settings(), Err(ApiError::ServerError("no".to_string())), 0) {
        Err(StaticRangeError::Api(e)) => assert_eq!(e, "Server returned error: no"),
        _ => panic!(),
    }
}

#[test]
fn files_to_download_are_queued() {
    let mut m = manager();
    let text = "OK\n#c\nh1;10;jpg;http://u/1\nh2;x;png;http://u/2;more\nh3;1;gif\n";
    let files = m.fetch_files_to_download(text);
    assert_eq!(files.len(), 2);
    assert_eq!((files[0].hash.as_str(), files[0].size), ("h1", 10));
    assert_eq!((files[1].size, files[1].url.as_str()), (0, "http://u/2"));
    assert_eq!((m.pending_files.len(), m.get_stats().files_pending), (2, 2));
    let mut cache = CacheManager::new(Config::default());
    cache.recover_file("h1", 10, "p", 0);
    let queued = m.queue_downloads(files, &cache);
    assert_eq!(queued.len(), 1);
    assert_eq!(queued[0].hash, "h2");
}

#[test]
fn downloads_are_checked_and_counted() {
    let mut m = manager();
    let files = m.fetch_files_to_download(&format!("{};3;jpg;u", ABC));
    assert!(m.download_file(&files[0], true, "200 OK", b"abc").is_ok());
    match m.download_file(&files[0], true, "200 OK", b"") {
        Err(StaticRangeError::DownloadFailed(e)) => assert_eq!(
            e,
            format!(
                "Hash mismatch: expected {}, got da39a3ee5e6b4b0d3255bfef95601890afd80709",
                ABC
            )
        ),
        _ => panic!(),
    }
    match m.download_file(&files[0], false, "404 Not Found", b"") {
        Err(StaticRangeError::DownloadFailed(e)) => assert_eq!(e, "HTTP 404 Not Found"),
        _ => panic!(),
    }
    match StaticRangeManager::store_failed(&CacheError::CacheFull) {
        StaticRangeError::DownloadFailed(e) => assert_eq!(e, "Cache full"),
        _ => panic!(),
    }
    m.record_download(3);
    m.record_download(4);
    m.record_failure();
    let stats = m.get_stats();
    assert_eq!((stats.files_downloaded, stats.bytes_downloaded), (2, 7));
    assert_eq!((stats.files_pending, stats.download_errors), (0, 1));
    assert!(m.starts_download());
    m.set_downloads_enabled(false);
    assert!(!m.starts_download());
}

#[test]
fn static_range_errors_in_words() {
    let s = || "x".to_string();
    assert_eq!(StaticRangeError::Network(s()).message(), "Network error: x");
    assert_eq!(StaticRangeError::Api(s()).message(), "API error: x");
    assert_eq!(StaticRangeError::InvalidFormat(s()).message(), "Invalid range format: x");
    assert_eq!(StaticRangeError::DownloadFailed(s()).message(), "Download failed: x");
}

#[test]
fn prefixes_cover_their_hashes() {
    let mut m = manager();
    m.fetch_ranges(&settings(), lines(&["12", "#34", "Ff0;9"]), 0).unwrap();
    assert!(m.is_in_assigned_range("12abc"));
    assert!(m.is_in_assigned_range("fF0"));
    assert!(!m.is_in_assigned_range("34"));
}
