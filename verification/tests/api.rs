use h_at_h_rs::api::{ApiError, HahApiClient, LoginStep};
use h_at_h_rs::config::Config;

fn client() -> HahApiClient {
    let mut config = Config::default();
    config.client_id = "123".to_string();
    config.client_key = "key".to_string();
    config.port = 4242;
    HahApiClient::new(config)
}

fn strings(list: &[&str]) -> Vec<String> {
    list.iter().map(|s| s.to_string()).collect()
}

fn logged_in(r: Result<LoginStep, ApiError>) -> h_at_h_rs::api::ServerSettings {
    match r {
        Ok(LoginStep::LoggedIn(settings)) => settings,
        _ => panic!("not logged in"),
    }
}

#[test]
fn requests_are_authenticated() {
    let mut c = client();
    assert_eq!(
        c.client_still_alive_request(1000),
        "http://rpc.hentaiathome.net/15/rpc?clientbuild=176&act=still_alive&add=&cid=123\
         &acttime=1000&actkey=365850634ec931ff0a9b917881dba9c3d3d3f5ee"
    );
    assert_eq!(
        c.generate_auth("still_alive", "", 1000),
        (1000, "365850634ec931ff0a9b917881dba9c3d3d3f5ee".to_string())
    );
    c.set_server_time(1015, 1010);
    assert_eq!(
        c.client_login_request(1000),
        "http://rpc.hentaiathome.net/15/rpc?clientbuild=176&act=client_login&add=&cid=123\
         &acttime=1005&actkey=aed8f8c634042bd208894329640911bb58cb67cb"
    );
    c.set_server_time(0, 0);
    assert_eq!(
        c.fetch_download_queue_request(Some((5, "org")), 1000),
        "http://rpc.hentaiathome.net/15/dl?clientbuild=176&act=fetchqueue&add=5;org&cid=123\
         &acttime=1000&actkey=33bb65f2d126a22440553f3396f2520931a72bb9"
    );
    assert!(c.fetch_download_queue_request(None, 1000).contains("&act=fetchqueue&add=&cid="));
    c.server_settings.rpc_path = "x?".to_string();
    assert_eq!(
        c.build_server_stat_url(),
        "http://rpc.hentaiathome.net/x?clientbuild=176&act=server_stat"
    );
    c.server_settings.rpc_path = String::new();
    assert_eq!(
        c.build_server_stat_url(),
        "http://rpc.hentaiathome.net/15/rpc?clientbuild=176&act=server_stat"
    );
}

#[test]
fn requests_name_their_action() {
    let mut c = client();
    assert!(c.client_suspend_request(0).contains("act=client_suspend&add=&"));
    assert!(c.client_resume_request(0).contains("act=client_resume&add=&"));
    assert!(c.client_stop_request(0).contains("act=client_stop&add=&"));
    assert!(c.get_static_range_request(0).contains("act=get_blacklist&add=&"));
    assert!(c.get_uncache_list_request(0).contains("act=get_uncache_list&add=&"));
    assert!(c.fetch_static_range_files_request(0).contains("act=srfetch&add=&"));
    let files = strings(&["a", "b"]);
    assert!(c.downloaded_files_request(&files, 0).unwrap().contains("act=dl_finished&add=a;b&"));
    assert!(c.report_uncached_request(&files, 0).unwrap().contains("act=uncache_finished&add=a;b&"));
    assert_eq!(c.downloaded_files_request(&Vec::new(), 0), None);
    assert_eq!(c.report_uncached_request(&Vec::new(), 0), None);
    assert!(c.report_served("h", 7, 0).contains("act=file_served&add=h;7&"));
    assert!(c.notify_overload_request(true, 0).contains("act=client_overload&add=1&"));
    assert!(c.notify_overload_request(false, 0).contains("act=client_overload&add=0&"));
    assert!(c.proxy_request_request("h", 0).contains("act=proxy_request&add=h&"));
    assert!(c.report_statistics(1, 2, 3, 4, 0).contains("act=client_stats&add=1;2;3;4&"));
    assert!(c
        .get_downloader_fetch_url_request(1, 2, 3, "org", 4, 0)
        .contains("act=dlfetch&add=1;2;3;org;4&"));
    let many = vec!["x".to_string(); 51];
    assert_eq!(c.report_download_failures(&Vec::new(), 0), None);
    assert_eq!(c.report_download_failures(&many, 0), None);
    assert!(c
        .report_download_failures(&many[..50].to_vec(), 0)
        .unwrap()
        .contains("act=dlfails&add=x;x;"));
    c.server_settings.request_server = "http://r".to_string();
    assert_eq!(c.speed_test(9), "http://r?cmd=speed_test&size=9");
}

#[test]
fn failed_server_is_avoided() {
    let mut c = client();
    c.server_settings.rpc_server_ips = strings(&["1.1.1.1", "2.2.2.2"]);
    assert_eq!(c.get_rpc_server_host(), "1.1.1.1");
    c.server_settings.rpc_server_port = 8080;
    assert_eq!(c.get_rpc_server_host(), "1.1.1.1:8080");
    c.mark_rpc_server_failed("3.3.3.3");
    assert_eq!(c.get_rpc_server_host(), "1.1.1.1:8080");
    c.mark_rpc_server_failed("1.1.1.1");
    assert_eq!(c.last_failed_rpc_server, Some("1.1.1.1".to_string()));
    assert_eq!(c.get_rpc_server_host(), "2.2.2.2:8080");
    c.clear_rpc_server_failure();
    assert_eq!(c.get_rpc_server_host(), "1.1.1.1:8080");
}

#[test]
fn only_server_is_tried_again_without_its_port() {
    let mut c = client();
    c.server_settings.rpc_server_ips = strings(&["1.1.1.1"]);
    c.server_settings.rpc_server_port = 8080;
    assert_eq!(c.get_rpc_server_host(), "1.1.1.1:8080");
    c.mark_rpc_server_failed("1.1.1.1");
    assert_eq!(c.get_rpc_server_host(), "1.1.1.1");
    assert_eq!(c.get_rpc_server_host(), "1.1.1.1:8080");
    c.clear_rpc_server_failure();
    c.server_settings.rpc_server_ips.clear();
    assert_eq!(c.get_rpc_server_host(), "rpc.hentaiathome.net");
    assert_eq!(c.current_rpc_server, None);
}

#[test]
fn settings_are_read() {
    let mut c = client();
    let reply = "OK\nmin_client_build=100\ncur_client_build=x\nmax_files_xfer=7\nmax_kb_xfer=\n\
                 rpc_server_ip=1.1.1.1;;2.2.2.2;\nrpc_server_port=99999\nrpc_path=p?\n\
                 throttle_bytes=500\ndisklimit_bytes=1\ndiskremaining_bytes=2\n\
                 filesystem_blocksize=-1\nmax_allowed_filesize=3\ndisableBrowseLoad=1\n\
                 image_server=img\nname=first\nname=second=x\nhost=h\nport=abc\n\
                 request_valid_base=5\nstatic_ranges=0000;00;0001;0000;abcde;ffff\nserver_time=60";
    let s = logged_in(c.client_login(reply, false, 50));
    assert_eq!((s.min_client_build, s.cur_client_build), (100, 0));
    assert_eq!((s.max_files_xfer, s.max_kb_xfer), (7, 100000));
    assert_eq!(s.rpc_server_ips, strings(&["1.1.1.1", "2.2.2.2"]));
    assert_eq!((s.rpc_server_port, s.rpc_path.as_str()), (80, "p?"));
    assert_eq!((s.throttle_bytes, s.disk_limit_bytes, s.disk_remaining_bytes), (500, 1, 2));
    assert_eq!((s.filesystem_blocksize, s.max_allowed_filesize), (4096, 3));
    assert!(s.disable_browse_load);
    assert_eq!((s.image_server.as_str(), s.name.as_str(), s.host.as_str()), ("img", "second=x", "h"));
    assert_eq!((s.port, s.request_valid_base), (4242, 5));
    assert_eq!(s.static_ranges.len(), 3);
    assert_eq!(s.static_range_count, 3);
    assert_eq!(c.get_server_time(50), 60);
    assert_eq!(c.get_static_range_count(), 3);
    assert_eq!(c.get_throttle_bytes(), 500);
    assert_eq!(c.get_settings().name, "second=x");
    assert!(c.is_in_static_range("0001aa"));
    assert!(!c.is_in_static_range("0002aa"));
    assert!(!c.is_in_static_range("000"));
}

#[test]
fn settings_that_are_not_sent_stay() {
    let mut c = client();
    logged_in(c.client_login("name=n\nstatic_range_count=9", false, 0));
    let s = logged_in(c.client_login("OK", false, 0));
    assert_eq!((s.name.as_str(), s.static_range_count, s.port), ("n", 9, 8080));
    let s = logged_in(c.client_login("static_ranges=abcd\nstatic_range_count=?", false, 0));
    assert_eq!(s.static_range_count, 1);
}

#[test]
fn login_can_fail() {
    let mut c = client();
    match c.client_login("FAIL no", false, 0) {
        Err(ApiError::AuthFailed(m)) => assert_eq!(m, "FAIL no"),
        _ => panic!(),
    }
    assert!(matches!(c.client_login("KEY_EXPIRED", false, 0), Ok(LoginStep::RefreshTime)));
    assert!(matches!(c.client_login("KEY_EXPIRED", true, 0), Ok(LoginStep::LoggedIn(_))));
    assert!(matches!(c.client_login("FAIL", true, 0), Err(ApiError::AuthFailed(_))));
    match c.client_login("min_client_build=177", false, 0) {
        Err(ApiError::ServerError(m)) => {
            assert_eq!(m, "Client too old. Required build: 177, current: 176")
        }
        _ => panic!(),
    }
}

#[test]
fn statistics_set_clock_and_servers() {
    let mut c = client();
    let reply = "SERVER_TIME=110\nrpc_server_ip=1.1.1.1\nrpc_server_port=81\nrpc_path=q?\nx\ny=z";
    assert!(c.server_stat(reply, 100).is_ok());
    assert_eq!(c.server_time_delta, 10);
    assert_eq!(c.get_rpc_server_host(), "1.1.1.1:81");
    assert_eq!(c.server_settings.rpc_path, "q?");
    assert!(c.server_stat("rpc_server_port=x\nserver_time=?", 0).is_ok());
    assert_eq!((c.server_time_delta, c.server_settings.rpc_server_port), (10, 81));
    match c.server_stat("rpc_path=a\nmin_client_build=200\nrpc_path=b", 0) {
        Err(ApiError::ServerError(m)) => {
            assert_eq!(m, "Client build 176 is too old. Minimum required: 200")
        }
        _ => panic!(),
    }
    assert_eq!(c.server_settings.rpc_path, "a");
    assert!(matches!(c.server_stat("FAIL\nrpc_path=z", 0), Err(ApiError::ServerError(_))));
    assert_eq!(c.server_settings.rpc_path, "a");
}

#[test]
fn replies_are_read() {
    let c = client();
    assert!(matches!(c.client_still_alive("...OK"), Ok(true)));
    assert!(matches!(c.client_still_alive("a FAIL"), Ok(false)));
    assert!(matches!(c.client_still_alive("?"), Err(ApiError::InvalidResponse(_))));
    assert!(c.client_suspend("OK").is_ok());
    assert!(matches!(c.client_resume("no"), Err(ApiError::ServerError(_))));
    assert!(c.client_stop("OK").is_ok());
    assert!(matches!(c.downloaded_files(""), Err(ApiError::ServerError(_))));
    assert!(c.report_uncached("xOKx").is_ok());
    assert!(c.notify_overload("OK").is_ok());
    assert_eq!(c.get_static_range("a\n\nb\n").unwrap(), strings(&["a", "", "b"]));
    assert!(matches!(c.get_static_range("FAIL"), Err(ApiError::ServerError(_))));
    assert_eq!(c.get_uncache_list("OK\n#c\n\nh1\nh2").unwrap(), strings(&["h1", "h2"]));
    assert!(matches!(c.get_uncache_list("FAIL"), Err(ApiError::ServerError(_))));
    let files = c.fetch_static_range_files("h;12;jpg\nh2;x;png;more\n#;1;2\nshort;1\n").unwrap();
    assert_eq!(
        files,
        vec![
            ("h".to_string(), 12, "jpg".to_string()),
            ("h2".to_string(), 0, "png".to_string())
        ]
    );
    assert!(matches!(c.fetch_static_range_files("FAIL"), Err(ApiError::ServerError(_))));
    assert_eq!(c.proxy_request("http://x\ny").unwrap(), Some("http://x".to_string()));
    assert_eq!(c.proxy_request("NOT_FOUND").unwrap(), None);
    assert_eq!(c.proxy_request("FAIL").unwrap(), None);
    assert_eq!(c.proxy_request("").unwrap(), None);
    assert_eq!(c.get_downloader_fetch_url("u\n").unwrap(), Some("u".to_string()));
    assert_eq!(c.get_downloader_fetch_url("INVALID_X").unwrap(), None);
}

#[test]
fn keystamps_are_checked() {
    let c = client();
    let id = "abcdef0123_1234_100x200_jpg";
    let t = 1_700_000_000;
    assert!(c.verify_request(id, "a569920979", t, t));
    assert!(c.verify_request(id, "A569920979", t, t + 900));
    assert!(c.verify_request(id, "a569920979", t, t - 900));
    assert!(!c.verify_request(id, "a569920979", t, t + 901));
    assert!(!c.verify_request(id, "a569920979", t, t - 901));
    assert!(!c.verify_request(id, "a569920978", t, t));
    assert!(!c.verify_request(id, "a56992097", t, t));
    assert!(!c.verify_request(id, "a569920979e", t, t));
    assert!(!c.verify_request(id, "", t, t));
    assert!(!c.verify_request("other", "a569920979", t, t));
    assert!(!c.verify_request(id, "a569920979", i64::MIN, t));
}

#[test]
fn gallery_metadata_is_read() {
    let c = client();
    let reply = "GID 77\nFILECOUNT 2\nMINXRES org\nTITLE  a<b>:  *c?  \nX y\n\nFILELIST\n\
                 1 10 org unknown jpg one two\n2 20 780 abc png x\nbad line\n\nINFORMATION\n\
                 first\n\nINFORMATION";
    let meta = c.fetch_download_queue(reply).unwrap().unwrap();
    assert_eq!((meta.gid, meta.filecount), (77, 2));
    assert_eq!((meta.minxres.as_str(), meta.title.as_str()), ("org", "ab c"));
    assert_eq!(meta.files.len(), 2);
    assert_eq!((meta.files[0].page, meta.files[0].fileindex), (1, 10));
    assert_eq!(meta.files[0].sha1hash, None);
    assert_eq!(meta.files[0].filename, "one two");
    assert_eq!(meta.files[1].sha1hash, Some("abc".to_string()));
    assert_eq!((meta.files[1].filetype.as_str(), meta.files[1].xres.as_str()), ("png", "780"));
    assert_eq!(meta.information, "first\n\nINFORMATION\n");
}

#[test]
fn gallery_metadata_may_be_missing() {
    let c = client();
    assert!(c.fetch_download_queue("NO_PENDING_DOWNLOADS").unwrap().is_none());
    assert!(c.fetch_download_queue("GID 1\nFILECOUNT 0\nTITLE t").unwrap().is_none());
    assert!(c.fetch_download_queue("GID x\nFILECOUNT 1\nTITLE t").unwrap().is_none());
    assert!(c.fetch_download_queue("GID 1\nFILECOUNT 1\nTITLE *").unwrap().is_none());
    assert!(c.fetch_download_queue("GID 1\nFILECOUNT 1\nTITLE t").unwrap().is_some());
    assert!(matches!(c.fetch_download_queue("FAIL"), Err(ApiError::ServerError(_))));
    assert!(matches!(c.fetch_download_queue("INVALID_REQUEST"), Err(ApiError::ServerError(_))));
}

#[test]
fn api_errors_in_words() {
    let s = || "x".to_string();
    assert_eq!(ApiError::Network(s()).message(), "Network error: x");
    assert_eq!(ApiError::ServerError(s()).message(), "Server returned error: x");
    assert_eq!(ApiError::InvalidResponse(s()).message(), "Invalid response: x");
    assert_eq!(ApiError::AuthFailed(s()).message(), "Authentication failed: x");
}

#[test]
fn server_time_may_be_far_away() {
    let mut c = client();
    c.set_server_time(i64::MIN, 1);
    assert_eq!(c.server_time_delta, i64::MIN.wrapping_sub(1) as i32);
    c.set_server_time(1 << 40, 5);
    assert_eq!(c.server_time_delta, ((1i64 << 40) - 5) as i32);
}

#[test]
fn clock_follows_the_server() {
    let mut c = HahApiClient::new(Config::default());
    assert_eq!(c.get_server_time(1000), 1000);
    c.server_stat("server_time=1500\n", 1000).unwrap();
    assert_eq!(c.get_server_time(1000), 1500);
    assert_eq!(c.get_server_time(1010), 1510);
    c.set_server_time(-7, 1010);
    assert_eq!(c.get_server_time(1010), -7);
}

#[test]
fn listed_ranges_are_assigned() {
    let mut c = HahApiClient::new(Config::default());
    let s = c.parse_server_settings("OK\nstatic_ranges=00ff;abc;00ff;abcde;12ab;\n", 0).unwrap();
    assert_eq!(s.static_ranges, vec!["00ff".to_string(), "12ab".to_string()]);
    assert_eq!(s.static_range_count, 2);
    c.server_settings = s;
    assert!(c.is_in_static_range("12ab99"));
    assert!(!c.is_in_static_range("abcde"));
    assert!(!c.is_in_static_range("00f"));
}
