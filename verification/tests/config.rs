use h_at_h_rs::config::{Args, Config, ConfigError};

fn args() -> Args {
    Args {
        client_id: "123".to_string(),
        client_key: "key".to_string(),
        port: 8080,
        cache_dir: "./cache".to_string(),
        temp_dir: "./temp".to_string(),
        cache_size_gb: 100,
        max_disk_usage: 95,
        gallery_download_enabled: true,
        gallery_api: "https://api.e-hentai.org".to_string(),
        exhentai_member_id: None,
        exhentai_pass_hash: None,
        exhentai_igneous: None,
        database_path: "./data/hah.db".to_string(),
        log_level: "info".to_string(),
        log_json: false,
        download_workers: 4,
        request_timeout: 30,
        static_ranges: false,
        bind_address: "0.0.0.0".to_string(),
        max_upload_speed: -1,
        max_download_speed: -1,
        max_hourly_bandwidth: -1,
        proxy_mode: false,
        min_free_space_gb: 5,
        enable_metrics: true,
        tui: false,
    }
}

#[test]
fn limits_are_in_bytes() {
    let mut a = args();
    a.max_upload_speed = 10;
    a.max_download_speed = 0;
    a.max_hourly_bandwidth = 2;
    a.max_disk_usage = 120;
    assert!(a.is_in_range());
    let c = Config::from_args(a).unwrap();
    assert_eq!(c.max_upload_speed, 10240);
    assert_eq!(c.max_download_speed, -1);
    assert_eq!(c.max_hourly_bandwidth, 2 * 1024 * 1024);
    assert_eq!(c.max_disk_usage, 99);
    assert_eq!(c.cache_size_bytes, 107374182400);
    assert_eq!(c.min_free_space_bytes, 5368709120);
}

#[test]
fn sizes_out_of_range_are_seen() {
    let mut a = args();
    a.cache_size_gb = u64::MAX;
    assert!(!a.is_in_range());
    let mut a = args();
    a.max_upload_speed = i64::MAX;
    assert!(!a.is_in_range());
    let mut a = args();
    a.max_upload_speed = i64::MAX / 1024;
    a.max_hourly_bandwidth = i64::MIN;
    assert!(a.is_in_range());
}

#[test]
fn cookies_need_member_and_hash() {
    let mut a = args();
    a.exhentai_member_id = Some("m".to_string());
    let c = Config::from_args(a.clone()).unwrap();
    assert!(!c.has_exhentai_access());
    a.exhentai_pass_hash = Some("p".to_string());
    a.exhentai_igneous = Some("i".to_string());
    let c = Config::from_args(a.clone()).unwrap();
    assert!(c.has_exhentai_access());
    let cookies = c.exhentai_cookies.unwrap();
    let lines = cookies.cookie_lines();
    assert_eq!(lines.len(), 5);
    assert_eq!(lines[0], ("ipb_member_id=m".to_string(), "https://exhentai.org"));
    assert_eq!(lines[2], ("igneous=i".to_string(), "https://exhentai.org"));
    assert_eq!(lines[4], ("ipb_pass_hash=p".to_string(), "https://e-hentai.org"));
    a.exhentai_igneous = None;
    let c = Config::from_args(a).unwrap();
    assert_eq!(c.exhentai_cookies.unwrap().cookie_lines().len(), 4);
}

#[test]
fn bind_address_has_the_port() {
    let c = Config::from_args(args()).unwrap();
    assert_eq!(c.bind_addr(), "0.0.0.0:8080");
}

#[test]
fn default_configuration() {
    let c = Config::default();
    assert_eq!(c.port, 8080);
    assert_eq!(c.bind_addr(), "0.0.0.0:8080");
    assert_eq!(c.cache_size_bytes, 100 * 1024 * 1024 * 1024);
    assert_eq!(c.gallery_api, "https://api.e-hentai.org");
    assert_eq!((c.max_upload_speed, c.max_hourly_bandwidth), (-1, -1));
    assert!(!c.has_exhentai_access());
}

#[test]
fn configuration_errors_in_words() {
    assert_eq!(
        ConfigError::MissingRequired("x".to_string()).message(),
        "Missing required configuration: x"
    );
    assert_eq!(
        ConfigError::InvalidValue("x".to_string()).message(),
        "Invalid configuration value: x"
    );
    assert_eq!(ConfigError::Io("x".to_string()).message(), "IO error: x");
}
