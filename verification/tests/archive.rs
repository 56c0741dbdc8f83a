use h_at_h_rs::archive::{
    archive_filename, completed_file, is_progress_due, safe_filename, ArchiveAction,
    ArchiveDownloader, ArchiveError, ArchiveJob, ArchiveProgress, ArchiveRequest,
    ArchiveResolution, ArchiveStage, ArchiveStatus, ArchiveStep,
};
use h_at_h_rs::config::{Config, ExHentaiCookies};

fn downloader() -> ArchiveDownloader {
    ArchiveDownloader::new(Config::default(), "./cache/archives".to_string())
}

fn page(body: &str) -> String {
    let mut s = body.to_string();
    while s.len() < 1000 {
        s.push('.');
    }
    s
}

fn request() -> ArchiveRequest {
    ArchiveRequest {
        gallery_id: "12".to_string(),
        gallery_token: "ab".to_string(),
        resolution: ArchiveResolution::Res1280,
        or_token: None,
    }
}

const ALL: [ArchiveResolution; 6] = [
    ArchiveResolution::Original,
    ArchiveResolution::Res2400,
    ArchiveResolution::Res1600,
    ArchiveResolution::Res1280,
    ArchiveResolution::Res980,
    ArchiveResolution::Res780,
];

#[test]
fn resolutions_read_back() {
    for r in ALL {
        assert_eq!(ArchiveResolution::from_str(r.as_str()), Some(r));
    }
    assert_eq!(ArchiveResolution::from_str("ORIGINAL"), Some(ArchiveResolution::Original));
    assert_eq!(ArchiveResolution::from_str("Org"), Some(ArchiveResolution::Original));
    assert_eq!(ArchiveResolution::from_str("640"), None);
    assert_eq!(ArchiveResolution::from_str(""), None);
    assert_eq!(ArchiveResolution::default(), ArchiveResolution::Original);
    assert_eq!(
        ArchiveResolution::Original.form_fields(),
        ("org", "Download Original Archive", "org")
    );
    assert_eq!(
        ArchiveResolution::Res780.form_fields(),
        ("res", "Download Resample Archive", "780")
    );
}

#[test]
fn archive_links_are_found_on_gallery_pages() {
    let d = downloader();
    assert_eq!(d.archive_info_request("12", "ab"), "https://e-hentai.org/g/12/ab/");
    let html = page("<a onclick=\"popUp('https://e-hentai.org/archiver.php?gid=34&token=cd&or=ef')\">");
    let info = d.get_archive_info("12", "ab", false, &html).unwrap();
    assert_eq!(info.archiver_key, "gid=34&token=cd");
    assert_eq!(info.or_token, Some("ef".to_string()));
    assert_eq!(info.available_resolutions, ALL.to_vec());
    assert_eq!((info.estimated_size, info.gp_cost), (None, None));
    let html = page("archiver.php?gid=34&token=cd");
    assert_eq!(d.get_archive_info("12", "ab", false, &html).unwrap().or_token, None);
}

#[test]
fn archive_links_are_found_in_scripts() {
    let d = downloader();
    let html = page(
        "<a onclick=\"nothing\">x</a><a onclick=\"archiver.php?gid=5&amp;token=ab\">y</a>",
    );
    let info = d.get_archive_info("12", "ab", false, &html).unwrap();
    assert_eq!(info.archiver_key, "gid=5&token=ab");
}

#[test]
fn archives_may_not_be_had() {
    let d = downloader();
    match d.get_archive_info("12", "ab", true, "") {
        Err(ArchiveError::NotFound(id)) => assert_eq!(id, "12"),
        _ => panic!(),
    }
    assert!(matches!(
        d.get_archive_info("12", "ab", false, "short"),
        Err(ArchiveError::AccessDenied)
    ));
    assert!(matches!(
        d.get_archive_info("12", "ab", false, &page("Content Warning")),
        Err(ArchiveError::AccessDenied)
    ));
    assert!(matches!(
        d.get_archive_info("12", "ab", false, &page("nothing")),
        Err(ArchiveError::NotAvailable)
    ));
    assert!(matches!(
        d.get_archive_info("12", "ab", false, &page("<a onclick=\"archiver.php\">")),
        Err(ArchiveError::NotAvailable)
    ));
}

#[test]
fn forms_name_the_resolution() {
    let all = [
        ArchiveResolution::Original,
        ArchiveResolution::Res2400,
        ArchiveResolution::Res1600,
        ArchiveResolution::Res1280,
        ArchiveResolution::Res980,
        ArchiveResolution::Res780,
    ];
    for a in all {
        let form = downloader().request_archive("<form>", "u", a).unwrap();
        assert_eq!(form.xres, a.as_str());
        for b in all {
            let other = downloader().request_archive("<form>", "u", b).unwrap();
            assert_eq!(form.fields() == other.fields(), a == b);
        }
    }
}

#[test]
fn archiver_pages_are_read() {
    let d = downloader();
    let url = d.archiver_request("12", "ab", &Some("k".to_string()));
    assert_eq!(url, "https://e-hentai.org/archiver.php?gid=12&token=ab&or=k");
    assert_eq!(
        d.archiver_request("12", "ab", &None),
        "https://e-hentai.org/archiver.php?gid=12&token=ab"
    );
    let html = "<form action='/search'></form><form></form><form action='/x?start=1'></form>";
    let form = d.request_archive(html, &url, ArchiveResolution::Original).unwrap();
    assert_eq!(form.url, "/x?start=1");
    assert_eq!(form.dltype, "org");
    assert_eq!(form.dlcheck, "Download Original Archive");
    assert_eq!(form.xres, "org");
    let form = d.request_archive("<form>", &url, ArchiveResolution::Res980).unwrap();
    assert_eq!(form.url, url);
    assert_eq!(
        form.fields(),
        vec![("dltype", "res"), ("dlcheck", "Download Resample Archive"), ("xres", "980")]
    );
    assert!(matches!(
        d.request_archive("This gallery is unavailable", &url, ArchiveResolution::Original),
        Err(ArchiveError::NotAvailable)
    ));
    assert!(matches!(
        d.request_archive("insufficient funds", &url, ArchiveResolution::Original),
        Err(ArchiveError::InsufficientCredits)
    ));
    assert!(matches!(
        d.request_archive("You do not have enough", &url, ArchiveResolution::Original),
        Err(ArchiveError::InsufficientCredits)
    ));
}

#[test]
fn result_pages_are_read() {
    let d = downloader();
    let download = |html: &str| match d.archive_result(html) {
        Ok(ArchiveStep::Download(url)) => url,
        _ => panic!("no download"),
    };
    assert_eq!(download("document.location = \"//h/a.zip?x\""), "https://h/a.zip?x");
    assert_eq!(download("<a href='/a.zip'>"), "https://e-hentai.org/a.zip");
    assert_eq!(download("<a href=\"http://h/a.zip\">"), "http://h/a.zip");
    assert_eq!(download("<a href='a.zip'> https://h/archive/1"), "https://h/archive/1");
    match d.archive_result("Please wait <a href='http://h/go'>Click here</a>") {
        Ok(ArchiveStep::Continue(url)) => assert_eq!(url, "http://h/go"),
        _ => panic!(),
    }
    match d.archive_result("Preparing your archive") {
        Err(ArchiveError::Parse(m)) => assert_eq!(m, "Archive is being prepared, try again later"),
        _ => panic!(),
    }
    match d.archive_result("nothing") {
        Err(ArchiveError::Parse(m)) => assert_eq!(m, "Could not find download URL"),
        _ => panic!(),
    }
    assert_eq!(d.continued_result("<a href='http://h/a.zip'>").unwrap(), "http://h/a.zip");
    assert!(d.continued_result("<a href='/a.zip'>").is_err());
}

#[test]
fn download_urls_are_extracted() {
    let x = |html: &str| ArchiveDownloader::extract_download_url(html, "https://base");
    assert_eq!(x("document.location='/a.zip'"), Ok("https://base/a.zip".to_string()));
    assert_eq!(
        x("<a href='//h/b.zip'> document.location='/a.zip'"),
        Ok("https://base/a.zip".to_string())
    );
    assert_eq!(x("<a class=x href='//h/b.zip'>"), Ok("https://h/b.zip".to_string()));
    assert_eq!(x("see https://h/archive/9 now"), Ok("https://h/archive/9".to_string()));
    assert_eq!(x("see http://h/f.zip?k=1 now"), Ok("http://h/f.zip?k=1".to_string()));
    assert_eq!(x("<a href='f.zip'>"), Err("Could not find download URL".to_string()));
    assert_eq!(x("Preparing"), Err("Archive is being prepared, retry later".to_string()));
    assert_eq!(x("Please wait"), Err("Archive is being prepared, retry later".to_string()));
}

#[test]
fn file_names_are_safe() {
    let header = Some("attachment; filename=\"My gallery/1.zip\"".to_string());
    let name = archive_filename(&header, "12", ArchiveResolution::Original);
    assert_eq!(name, "My gallery/1.zip");
    assert_eq!(safe_filename(&name, true), "My gallery_1.zip");
    assert_eq!(safe_filename(&name, false), "My_gallery_1.zip");
    let header = Some("attachment; filename*=UTF-8''b%C3%A4.zip".to_string());
    assert_eq!(archive_filename(&header, "12", ArchiveResolution::Original), "b%C3%A4.zip");
    let header = Some("inline".to_string());
    assert_eq!(archive_filename(&header, "12", ArchiveResolution::Res980), "12_980.zip");
    assert_eq!(archive_filename(&None, "12", ArchiveResolution::Original), "12_org.zip");
    assert_eq!(safe_filename("日本 ½*\"", false), "日本_½__");
    assert_eq!(safe_filename("../../etc", true), ".._.._etc");
}

#[test]
fn download_replies_are_checked() {
    let d = downloader();
    let (file, temporary) =
        d.download_archive(true, "200 OK", &None, "12", ArchiveResolution::Original).unwrap();
    assert_eq!((file.as_str(), temporary.as_str()), ("12_org.zip", ".12_org.zip.tmp"));
    match d.download_archive(false, "404 Not Found", &None, "12", ArchiveResolution::Original) {
        Err(ArchiveError::DownloadFailed(m)) => assert_eq!(m, "HTTP 404 Not Found"),
        _ => panic!(),
    }
    assert_eq!(d.get_downloads_dir(), "./cache/archives");
}

#[test]
fn progress_is_noted_at_full_mebibytes() {
    assert!(is_progress_due(1048576, 0, false));
    assert!(!is_progress_due(1048577, 1048577, false));
    assert!(is_progress_due(1048577, 1048577, true));
    assert!(is_progress_due(0, 5, false));
    let mut progress = ArchiveProgress::new(1048580);
    assert_eq!(progress.chunk_written(5), None);
    assert_eq!(progress.chunk_written(1048571), Some(1048576));
    assert_eq!(progress.chunk_written(3), None);
    assert_eq!(progress.chunk_written(1), Some(1048580));
}

#[test]
fn queued_archive_is_downloaded() {
    let mut job = ArchiveJob::new(request(), true);
    match job.start() {
        ArchiveAction::FetchGallery(url) => assert_eq!(url, "https://exhentai.org/g/12/ab/"),
        _ => panic!(),
    }
    match job.gallery_arrived("archiver.php?gid=3&token=c&or=d") {
        ArchiveAction::FetchArchiver(url) => {
            assert_eq!(url, "https://exhentai.org/archiver.php?gid=3&token=c&or=d")
        }
        _ => panic!(),
    }
    match job.archiver_arrived("fine") {
        ArchiveAction::SendForm(form) => {
            assert_eq!(form.url, "https://exhentai.org/archiver.php?gid=3&token=c&or=d");
            assert_eq!(form.dltype, "res");
        }
        _ => panic!(),
    }
    match job.result_arrived("<a href='/a.zip'>") {
        ArchiveAction::FetchArchive(url) => assert_eq!(url, "https://exhentai.org/a.zip"),
        _ => panic!(),
    }
    match job.reply_arrived(true, "200 OK", &None, 3) {
        ArchiveAction::Receive { file_name, temporary, file_size } => {
            assert_eq!(file_name, "12_1280.zip");
            assert_eq!(temporary, ".12_1280.zip.tmp");
            assert_eq!(file_size, Some(3));
        }
        _ => panic!(),
    }
    match job.chunk_written(3) {
        ArchiveAction::Write { progress } => assert_eq!(progress, None),
        _ => panic!(),
    }
    match job.chunk_written(1048576 - 3) {
        ArchiveAction::Write { progress } => assert_eq!(progress, Some(1048576)),
        _ => panic!(),
    }
    match job.finish() {
        ArchiveAction::Complete { file_name, temporary, size } => {
            assert_eq!(file_name, "12_1280.zip");
            assert_eq!(temporary, ".12_1280.zip.tmp");
            assert_eq!(size, 1048576);
        }
        _ => panic!(),
    }
    assert_eq!(job.stage, ArchiveStage::Completed);
}

#[test]
fn queued_archive_may_fail() {
    let mut job = ArchiveJob::new(request(), false);
    job.start();
    match job.gallery_arrived("no link") {
        ArchiveAction::FetchArchiver(url) => {
            assert_eq!(url, "https://e-hentai.org/archiver.php?gid=12&token=ab")
        }
        _ => panic!(),
    }
    match job.archiver_arrived("you do not have enough") {
        ArchiveAction::GiveUp { noted, message } => {
            assert_eq!(noted, Some("Insufficient GP/Credits".to_string()));
            assert_eq!(message, "Insufficient GP/Credits");
        }
        _ => panic!(),
    }
    assert_eq!(job.stage, ArchiveStage::Failed);

    let mut job = ArchiveJob::new(request(), false);
    job.start();
    job.gallery_arrived("");
    job.archiver_arrived("");
    match job.result_arrived("nothing") {
        ArchiveAction::GiveUp { noted, message } => {
            assert_eq!(noted, None);
            assert_eq!(message, "Could not find download URL");
        }
        _ => panic!(),
    }

    let mut job = ArchiveJob::new(request(), false);
    job.start();
    job.gallery_arrived("");
    job.archiver_arrived("");
    job.result_arrived("https://h/archive/9");
    match job.reply_arrived(false, "503 Service Unavailable", &None, 0) {
        ArchiveAction::GiveUp { noted, message } => {
            assert_eq!(noted, Some("HTTP 503 Service Unavailable".to_string()));
            assert_eq!(message, "Download failed: HTTP 503 Service Unavailable");
        }
        _ => panic!(),
    }
}

#[test]
fn first_completed_archive_is_served() {
    let status = |status: &str, path: Option<&str>| ArchiveStatus {
        gallery_id: "12".to_string(),
        gallery_token: "ab".to_string(),
        title: None,
        status: status.to_string(),
        resolution: "org".to_string(),
        file_size: 0,
        downloaded_bytes: 0,
        file_path: path.map(str::to_string),
        error: None,
        created_at: 0,
        updated_at: 0,
    };
    let list = vec![
        status("failed", Some("a")),
        status("completed", None),
        status("completed", Some("b")),
        status("completed", Some("c")),
    ];
    assert_eq!(completed_file(&list), Some("b".to_string()));
    assert_eq!(completed_file(&list[..2].to_vec()), None);
}

#[test]
fn gallery_addresses_are_parsed() {
    let p = |url: &str| ArchiveDownloader::parse_gallery_url(url);
    assert_eq!(
        p("https://exhentai.org/g/1/af/"),
        Some(("1".to_string(), "af".to_string()))
    );
    assert_eq!(p("https://exhentai.org/g/x/af/"), None);
    assert_eq!(p("https://example.org/g/1/af/"), None);
}

#[test]
fn site_depends_on_cookies() {
    let mut config = Config::default();
    config.exhentai_cookies = Some(ExHentaiCookies {
        member_id: "m".to_string(),
        pass_hash: "p".to_string(),
        igneous: None,
    });
    let d = ArchiveDownloader::new(config, String::new());
    assert_eq!(d.base_url(), "https://exhentai.org");
    assert_eq!(downloader().base_url(), "https://e-hentai.org");
}

#[test]
fn archive_errors_in_words() {
    let s = || "x".to_string();
    assert_eq!(ArchiveError::Network(s()).message(), "Network error: x");
    assert_eq!(ArchiveError::Parse(s()).message(), "Parse error: x");
    assert_eq!(ArchiveError::NotFound(s()).message(), "Gallery not found: x");
    assert_eq!(ArchiveError::AccessDenied.message(), "Access denied - login required");
    assert_eq!(ArchiveError::NotAvailable.message(), "Archive not available");
    assert_eq!(
        ArchiveError::InsufficientCredits.message(),
        "GP/Credits required for archive download"
    );
    assert_eq!(ArchiveError::RateLimited.message(), "Rate limited - please wait");
    assert_eq!(ArchiveError::DownloadFailed(s()).message(), "Download failed: x");
    assert_eq!(ArchiveError::Io(s()).message(), "IO error: x");
    assert_eq!(ArchiveError::Database(s()).message(), "Database error: x");
}
