use h_at_h_rs::config::Config;
use h_at_h_rs::gallery::{
    gallery_number_of, image_type, DownloadRequest, DownloadStatus, GalleryDownloader,
    GalleryError, GalleryJob, InfoFault,
};
use h_at_h_rs::web::can_read;

fn downloader() -> GalleryDownloader {
    GalleryDownloader::new(Config::default())
}

fn request(start_page: Option<u32>, end_page: Option<u32>) -> DownloadRequest {
    DownloadRequest {
        gallery_id: "12".to_string(),
        gallery_token: "ab".to_string(),
        start_page,
        end_page,
        priority: 5,
    }
}

fn page(body: &str) -> String {
    let mut s = body.to_string();
    while s.len() < 1000 {
        s.push('.');
    }
    s
}

#[test]
fn test_parse_gallery_url() {
    let url = "https://e-hentai.org/g/1234567/abcdef1234/";
    let result = GalleryDownloader::parse_gallery_url(url);
    assert_eq!(
        result,
        Some(("1234567".to_string(), "abcdef1234".to_string()))
    );

    let url2 = "https://exhentai.org/g/7654321/fedcba4321/?p=2";
    let result2 = GalleryDownloader::parse_gallery_url(url2);
    assert_eq!(
        result2,
        Some(("7654321".to_string(), "fedcba4321".to_string()))
    );
}

#[test]
fn gallery_information_is_read() {
    let d = downloader();
    let body = br#"{"gmetadata":[{"gid":12,"token":"ab","title":"T","title_jpn":"J",
        "category":"C","thumb":"http://t","uploader":"U","posted":"100","filecount":"45",
        "filesize":9000000000,"tags":["a",5,"b"]}]}"#;
    let g = d.fetch_gallery_info("12", false, body).unwrap();
    assert_eq!((g.gid.as_str(), g.token.as_str(), g.title.as_str()), ("12", "ab", "T"));
    assert_eq!(g.title_jpn, Some("J".to_string()));
    assert_eq!((g.category.as_str(), g.thumb.as_str(), g.posted.as_str()), ("C", "http://t", "100"));
    assert_eq!(g.uploader, Some("U".to_string()));
    assert_eq!((g.filecount, g.filesize), (45, 9000000000));
    assert_eq!(g.tags, vec!["a".to_string(), "b".to_string()]);
}

#[test]
fn gallery_information_may_be_incomplete() {
    let d = downloader();
    let g = d.fetch_gallery_info("12", false, br#"{"gmetadata":[{"filecount":45,"gid":"12"}]}"#);
    let g = g.unwrap();
    assert_eq!((g.gid.as_str(), g.title.as_str(), g.filecount, g.filesize), ("0", "", 0, 0));
    assert_eq!((g.title_jpn, g.uploader), (None, None));
    assert!(g.tags.is_empty());
    assert!(matches!(
        d.fetch_gallery_info("12", false, br#"{"gmetadata":[]}"#),
        Err(GalleryError::NotFound(_))
    ));
    assert!(matches!(d.fetch_gallery_info("12", false, b"{}"), Err(GalleryError::NotFound(_))));
    assert!(matches!(d.fetch_gallery_info("12", false, b"<"), Err(GalleryError::Network(_))));
    assert!(matches!(d.fetch_gallery_info("12", true, b"{}"), Err(GalleryError::AccessDenied)));
}

#[test]
fn gallery_pages_are_read() {
    let d = downloader();
    assert_eq!(d.gallery_pages_request("12", "ab", 3), "https://e-hentai.org/g/12/ab/?p=3");
    let html = page(
        "<div class='gdtm'><a href='https://x/s/c0/12-7'></a></div><div class='gdtl'>\
         <a name='n'></a><a href='/s/d1/12-99999999999'></a><a href='/other'></a></div>\
         <div class='q'><a href='/s/aa/12-8'></a></div>",
    );
    let images = d.fetch_gallery_pages("12", false, &html).unwrap();
    assert_eq!(images.len(), 2);
    assert_eq!((images[0].page_num, images[0].url.as_str()), (7, "https://x/s/c0/12-7"));
    assert_eq!(images[0].file_hash, Some("c0".to_string()));
    assert_eq!((images[1].page_num, images[1].url.as_str()), (3, "/s/d1/12-99999999999"));
    assert!(matches!(d.fetch_gallery_pages("12", true, ""), Err(GalleryError::NotFound(_))));
    assert!(matches!(d.fetch_gallery_pages("12", false, ""), Err(GalleryError::AccessDenied)));
    assert!(matches!(
        d.fetch_gallery_pages("12", false, &page("Your IP address has been")),
        Err(GalleryError::AccessDenied)
    ));
}

#[test]
fn images_are_located() {
    let d = downloader();
    assert_eq!(
        d.fetch_image_url("u", false, "<img id='img' src='http://i/1.png'>").unwrap(),
        "http://i/1.png"
    );
    assert_eq!(d.fetch_image_url("u", false, "return nl('k-1')").unwrap(), "u?nl=k-1");
    match d.fetch_image_url("u", false, "<img src='x'>") {
        Err(GalleryError::Parse(m)) => assert_eq!(m, "Could not find image URL"),
        _ => panic!(),
    }
    assert!(matches!(d.fetch_image_url("u", true, ""), Err(GalleryError::RateLimited)));
    assert_eq!(image_type("a.png?x"), "png");
    assert_eq!(image_type("a.gif"), "gif");
    assert_eq!(image_type("a.webp"), "jpg");
}

#[test]
fn galleries_are_queued_once() {
    let mut d = downloader();
    assert!(d.queue_gallery(&request(None, None)));
    d.active_downloads.push("12_ab".to_string());
    assert!(!d.queue_gallery(&request(None, None)));
    assert_eq!(d.api_url(), "https://api.e-hentai.org/api.php");
    assert_eq!(gallery_number_of("12"), 12);
    assert_eq!(gallery_number_of("x"), 0);
}

#[test]
fn gallery_is_gone_through_page_by_page() {
    let mut job = GalleryJob::new(request(Some(39), None), false);
    let body = br#"{"gmetadata":[{"filecount":"100"}]}"#;
    assert_eq!(job.info_arrived(body), Ok(("Unknown".to_string(), 100)));
    assert_eq!((job.first, job.last), (39, 100));
    assert!(job.has_range());
    job.plan();
    assert_eq!(job.pages, 3);
    assert_eq!(job.next_gallery_page(), Some("https://e-hentai.org/g/12/ab/?p=0".to_string()));
    job.gallery_page_arrived(
        "<div class='gdtm'><a href='/s/a/12-38'></a><a href='/s/b/12-39'></a>\
         <a href='/s/c/12-40'></a><a href='/s/d/12-101'></a></div>",
    );
    assert_eq!(job.next_image_page(), Some((39, "/s/b/12-39".to_string())));
    assert_eq!(
        job.image_page_arrived("<img id='img' src='/i.gif'>"),
        Some(("/i.gif".to_string(), "gif"))
    );
    assert_eq!(job.image_stored(), 1);
    assert_eq!(job.next_image_page(), Some((40, "/s/c/12-40".to_string())));
    assert_eq!(job.image_page_arrived("none"), None);
    assert_eq!(job.next_image_page(), None);
    assert_eq!(job.next_gallery_page(), Some("https://e-hentai.org/g/12/ab/?p=1".to_string()));
    assert_eq!(job.next_gallery_page(), Some("https://e-hentai.org/g/12/ab/?p=2".to_string()));
    assert_eq!(job.next_gallery_page(), None);
    assert_eq!(job.downloaded, 1);
}

#[test]
fn gallery_without_information_is_not_downloaded() {
    let mut job = GalleryJob::new(request(None, Some(3)), true);
    assert_eq!(job.info_arrived(b"{}"), Err(InfoFault::NoMetadata));
    assert_eq!(job.info_arrived(b"<html>"), Err(InfoFault::Undecodable));
    assert_eq!(InfoFault::NoMetadata.message(), "Gallery metadata not found");
    assert_eq!(InfoFault::Undecodable.message(), "error decoding response body");
    assert_eq!(
        job.info_arrived(br#"{"gmetadata":[{"title":"T"}]}"#),
        Ok(("T".to_string(), 0))
    );
    assert_eq!((job.first, job.last), (1, 3));
    let mut job = GalleryJob::new(request(None, None), true);
    job.set_count(0);
    assert!(!job.has_range());
    job.set_count(40);
    job.plan();
    assert_eq!(job.pages, 1);
    job.set_count(41);
    job.plan();
    assert_eq!(job.pages, 2);
}

#[test]
fn statuses_have_names() {
    assert_eq!(DownloadStatus::Pending.as_str(), "pending");
    assert_eq!(DownloadStatus::Downloading.as_str(), "downloading");
    assert_eq!(DownloadStatus::Completed.as_str(), "completed");
    assert_eq!(DownloadStatus::Failed.as_str(), "failed");
    assert_eq!(DownloadStatus::Paused.as_str(), "paused");
}

#[test]
fn gallery_errors_in_words() {
    let s = || "x".to_string();
    assert_eq!(GalleryError::Network(s()).message(), "Network error: x");
    assert_eq!(GalleryError::Parse(s()).message(), "Parse error: x");
    assert_eq!(GalleryError::NotFound(s()).message(), "Gallery not found: x");
    assert_eq!(GalleryError::AccessDenied.message(), "Access denied - login required");
    assert_eq!(GalleryError::RateLimited.message(), "Rate limited");
    assert_eq!(GalleryError::Database(s()).message(), "Database error: x");
}

#[test]
fn planned_pages_hold_the_range() {
    let ranges = [
        (1, 1, vec![0]),
        (1, 40, vec![0]),
        (1, 41, vec![0, 1]),
        (41, 60, vec![1]),
        (50, 90, vec![1, 2]),
        (40, 41, vec![0, 1]),
        (80, 121, vec![1, 2, 3]),
        (0, 3, vec![0]),
        (u32::MAX, u32::MAX, vec![107374182]),
    ];
    for (first, last, pages) in ranges {
        let mut job = GalleryJob::new(request(Some(first), Some(last)), false);
        job.set_count(500);
        job.plan();
        for page in pages {
            assert_eq!(
                job.next_gallery_page(),
                Some(format!("https://e-hentai.org/g/12/ab/?p={}", page))
            );
        }
        assert_eq!(job.next_gallery_page(), None);
    }
}

#[test]
fn gallery_addresses_are_read() {
    let parse = GalleryDownloader::parse_gallery_url;
    assert_eq!(parse("https://e-hentai.org/g/12/ab"), Some(("12".to_string(), "ab".to_string())));
    assert_eq!(
        parse("https://exhentai.org/g/12/abz/"),
        Some(("12".to_string(), "ab".to_string()))
    );
    assert_eq!(parse("https://example.org/g/12/ab/"), None);
    assert_eq!(parse("https://e-hentai.org/g/x/ab/"), None);
    assert_eq!(parse("https://e-hentai.org/g/12/"), None);
}

#[test]
fn pages_of_ordinary_length_can_be_read() {
    assert!(can_read(""));
    assert!(can_read(&"x".repeat(1_000_000)));
}
