use h_at_h_rs::api::{ApiError, GalleryFileMeta, GalleryMeta, HahApiClient};
use h_at_h_rs::config::Config;
use h_at_h_rs::hath_downloader::{
    free_space, DownloadResult, ExistingFile, FileAction, FileRun, FileStage, GalleryRun, GalleryStep,
    HathDownloader, QueueReply, QueueRun, QueueStep, WriteOutcome,
};

const ABC: &str = "a9993e364706816aba3e25717850c26c9cd0d89d";

fn downloader() -> HathDownloader {
    let mut config = Config::default();
    config.client_id = "123".to_string();
    config.client_key = "key".to_string();
    HathDownloader::new(config, "./download".to_string())
}

fn file(hash: Option<&str>) -> GalleryFileMeta {
    GalleryFileMeta {
        page: 1,
        fileindex: 2,
        xres: "org".to_string(),
        sha1hash: hash.map(str::to_string),
        filetype: "jpg".to_string(),
        filename: "one".to_string(),
    }
}

fn gallery(title: &str, minxres: &str, filecount: i32, files: usize) -> GalleryMeta {
    GalleryMeta {
        gid: 5,
        filecount,
        minxres: minxres.to_string(),
        title: title.to_string(),
        files: (0..files).map(|_| file(None)).collect(),
        information: "info\n".to_string(),
    }
}

#[test]
fn downloader_starts_and_stops() {
    let mut d = downloader();
    assert!(!d.is_running());
    d.downloads_available = false;
    d.start();
    assert!(d.is_running() && d.downloads_available);
    d.stop();
    assert!(!d.is_running());
    d.file_written(7);
    assert_eq!(d.get_stats(), (0, 7));
    assert_eq!(d.get_download_dir(), "./download");
}

#[test]
fn minimum_of_disk_space_is_kept_free() {
    let mut d = downloader();
    d.config.min_free_space_bytes = 5;
    assert!(d.is_low_disk_space(0));
    assert!(d.is_low_disk_space(1073741824 + 4));
    assert!(!d.is_low_disk_space(1073741824 + 5));
    d.config.min_free_space_bytes = u64::MAX;
    assert!(d.is_low_disk_space(u64::MAX));
}

#[test]
fn free_space_is_read_from_a_report() {
    let report = "Filesystem 1024-blocks Used Available Capacity Mounted on\n\
                  /dev/sda1 1000 600 400 60% /data\n";
    assert_eq!(free_space(report), Some(409600));
    assert_eq!(free_space("Filesystem 1024-blocks Used Available\n"), None);
    assert_eq!(free_space("a\nb 1 2\n"), None);
    assert_eq!(free_space("a\nb 1 2 x\n"), None);
    assert_eq!(free_space("a\nb 1 2 18446744073709551615\n"), None);
}

#[test]
fn directories_are_named() {
    let d = downloader();
    assert_eq!(d.create_gallery_dir(&gallery("t", "org", 1, 1)), "t [5]");
    assert_eq!(d.create_gallery_dir(&gallery("t", "780", 1, 1)), "t [5-780x]");
    let long = "x".repeat(200);
    let name = d.create_gallery_dir(&gallery(&long, "org", 1, 1));
    assert_eq!(name, format!("{}... [5]", "x".repeat(118)));
    assert_eq!(name.len(), 125);
    assert!(d.has_gallery_dir(&gallery(&long, "org", 1, 1)));
    assert!(!d.has_gallery_dir(&gallery("t", &"9".repeat(120), 1, 1)));
    let cut = format!("{}ä{}", "x".repeat(117), "x".repeat(50));
    assert!(!d.has_gallery_dir(&gallery(&cut, "org", 1, 1)));
}

#[test]
fn information_files_are_written() {
    let d = downloader();
    assert_eq!(
        d.write_gallery_info(&gallery("t", "org", 3, 1)),
        "Title: t\nGID: 5\nFiles: 3\nResolution: org\n\ninfo\n"
    );
    assert_eq!(d.file_name(&file(None)), "one.jpg");
}

#[test]
fn existing_files_are_kept_or_not() {
    let d = downloader();
    let upper = ABC.to_uppercase();
    assert!(d.keeps_existing(&file(Some(&upper)), Some(b"abc"), 0));
    assert!(!d.keeps_existing(&file(Some(ABC)), Some(b"abd"), 3));
    assert!(!d.keeps_existing(&file(Some(ABC)), None, 3));
    assert!(d.keeps_existing(&file(None), None, 1));
    assert!(!d.keeps_existing(&file(None), None, 0));
    assert!(d.verify_file_hash(b"abc", ABC));
}

#[test]
fn downloads_are_authenticated_and_checked() {
    let d = downloader();
    assert_eq!(
        d.download_header(5, &file(None)),
        "123-9aed648436c8f94ce024e5fd566dce2dda95d3dd"
    );
    assert!(d.download_gallery_file(&file(Some(ABC)), "http://h:80/x", b"abc").is_none());
    assert!(d.download_gallery_file(&file(None), "http://h:80/x", b"xyz").is_none());
    match d.download_gallery_file(&file(Some(ABC)), "http://h.org:80/x", b"xyz") {
        Some(DownloadResult::Failed(Some(info))) => assert_eq!(info, "h.org-2-org"),
        _ => panic!(),
    }
    match d.download_gallery_file(&file(Some(ABC)), "no url", b"xyz") {
        Some(DownloadResult::Failed(None)) => {}
        _ => panic!(),
    }
}

#[test]
fn files_of_static_ranges_are_cached() {
    let d = downloader();
    let mut client = HahApiClient::new(Config::default());
    assert_eq!(d.cache_hash(&client, &file(None), b"abc"), None);
    client.server_settings.static_ranges = vec!["a999".to_string()];
    assert_eq!(d.cache_hash(&client, &file(None), b"abc"), Some(ABC.to_string()));
    assert_eq!(d.cache_hash(&client, &file(Some("a9990")), b"?"), Some("a9990".to_string()));
    assert_eq!(d.cache_hash(&client, &file(Some("a99")), b"?"), None);
}

#[test]
fn file_is_fetched_written_and_cached() {
    let mut d = downloader();
    let mut client = HahApiClient::new(Config::default());
    client.server_settings.static_ranges = vec!["a999".to_string()];
    let wanted = file(Some(ABC));
    let mut run = FileRun::new(5);
    assert!(run.stage == FileStage::Queued);
    let bad = ExistingFile { data: Some(b"abd"), length: 3 };
    assert!(matches!(run.start(&d, &wanted, Some(bad)), FileAction::AskAddress { remove: true }));
    match run.address_arrived(&d, &wanted, Ok(Some("http://h.org/x".to_string()))) {
        FileAction::Fetch { url, header } => {
            assert_eq!(url, "http://h.org/x");
            assert_eq!(header, "123-9aed648436c8f94ce024e5fd566dce2dda95d3dd");
        }
        _ => panic!(),
    }
    assert!(matches!(run.data_arrived(&d, &wanted, Some(b"abc")), FileAction::Write));
    match run.written(&mut d, &client, &wanted, b"abc", WriteOutcome::Complete) {
        FileAction::Cache { hash } => assert_eq!(hash, ABC),
        _ => panic!(),
    }
    assert_eq!(d.get_stats(), (0, 3));
    assert!(matches!(
        run.cached(),
        FileAction::Done { result: DownloadResult::Success, remove: false }
    ));
    assert!(run.stage == FileStage::Over);
    let mut again = FileRun::new(5);
    let good = ExistingFile { data: Some(b"abc"), length: 3 };
    assert!(matches!(
        again.start(&d, &wanted, Some(good)),
        FileAction::Done { result: DownloadResult::AlreadyExists, remove: false }
    ));
}

#[test]
fn file_outside_the_ranges_is_not_cached() {
    let mut d = downloader();
    let client = HahApiClient::new(Config::default());
    let wanted = file(None);
    let mut run = FileRun::new(5);
    let empty = ExistingFile { data: None, length: 0 };
    let first = run.start(&d, &wanted, Some(empty));
    assert!(matches!(first, FileAction::AskAddress { remove: false }));
    run.address_arrived(&d, &wanted, Ok(Some("http://h.org/x".to_string())));
    assert!(matches!(run.data_arrived(&d, &wanted, Some(b"xyz")), FileAction::Write));
    assert!(matches!(
        run.written(&mut d, &client, &wanted, b"xyz", WriteOutcome::Complete),
        FileAction::Done { result: DownloadResult::Success, remove: false }
    ));
}

#[test]
fn file_without_an_address_fails() {
    let d = downloader();
    for answer in [Ok(None), Err(ApiError::Network("down".to_string()))] {
        let mut run = FileRun::new(5);
        let first = run.start(&d, &file(None), None);
        assert!(matches!(first, FileAction::AskAddress { remove: false }));
        assert!(matches!(
            run.address_arrived(&d, &file(None), answer),
            FileAction::Done { result: DownloadResult::Failed(None), remove: false }
        ));
    }
}

#[test]
fn wrong_or_missing_data_are_reported_with_the_host() {
    let d = downloader();
    let wrong: &[u8] = b"xyz";
    for data in [None, Some(wrong)] {
        let mut run = FileRun::new(5);
        run.start(&d, &file(Some(ABC)), None);
        run.address_arrived(&d, &file(Some(ABC)), Ok(Some("http://h.org/x".to_string())));
        match run.data_arrived(&d, &file(Some(ABC)), data) {
            FileAction::Done { result: DownloadResult::Failed(Some(info)), remove: false } => {
                assert_eq!(info, "h.org-2-org")
            }
            _ => panic!(),
        }
    }
}

#[test]
fn file_written_in_part_is_removed() {
    for (outcome, removed) in [(WriteOutcome::NotCreated, false), (WriteOutcome::Interrupted, true)]
    {
        let mut d = downloader();
        let client = HahApiClient::new(Config::default());
        let mut run = FileRun::new(5);
        run.start(&d, &file(None), None);
        run.address_arrived(&d, &file(None), Ok(Some("http://h.org/x".to_string())));
        run.data_arrived(&d, &file(None), Some(b"xyz"));
        match run.written(&mut d, &client, &file(None), b"xyz", outcome) {
            FileAction::Done { result: DownloadResult::Failed(None), remove } => {
                assert_eq!(remove, removed)
            }
            _ => panic!(),
        }
        assert_eq!(d.get_stats(), (0, 0));
    }
}

fn walk_through(
    run: &mut GalleryRun,
    results: &[DownloadResult],
    failures: &mut Vec<String>,
) -> (bool, Vec<(usize, i32)>, Vec<u64>) {
    let mut d = downloader();
    let (mut asked, mut waits) = (Vec::new(), Vec::new());
    loop {
        match run.next(true, false) {
            GalleryStep::File { index, retry } => {
                let result = results[asked.len()].clone();
                asked.push((index, retry));
                waits.push(run.record(result, &mut d, failures));
            }
            GalleryStep::Done(complete) => return (complete, asked, waits),
            GalleryStep::Pause { .. } => panic!(),
        }
    }
}

fn failed() -> DownloadResult {
    DownloadResult::Failed(Some("f".to_string()))
}

#[test]
fn gallery_is_complete_with_all_its_files() {
    let mut failures: Vec<String> = Vec::new();
    let mut run = GalleryRun::new(&gallery("t", "org", 2, 2));
    let results = [
        DownloadResult::Success,
        failed(),
        DownloadResult::AlreadyExists,
        failed(),
        DownloadResult::AlreadyExists,
        DownloadResult::Success,
    ];
    let (complete, asked, waits) = walk_through(&mut run, &results, &mut failures);
    assert!(complete && run.is_complete());
    assert_eq!(asked, vec![(0, 1), (1, 1), (0, 2), (1, 2), (0, 3), (1, 3)]);
    assert_eq!(waits, vec![1, 5, 0, 5, 0, 1]);
    assert_eq!(failures, vec!["f".to_string()]);
    assert_eq!(run.there, vec![true, true]);
}

#[test]
fn file_that_is_there_does_not_stand_for_one_that_is_missing() {
    let mut failures: Vec<String> = Vec::new();
    let mut run = GalleryRun::new(&gallery("t", "org", 2, 2));
    let mut results = vec![DownloadResult::Success, failed()];
    for _ in 0..9 {
        results.push(DownloadResult::AlreadyExists);
        results.push(failed());
    }
    let (complete, asked, _) = walk_through(&mut run, &results, &mut failures);
    assert!(!complete);
    assert_eq!(run.there, vec![true, false]);
    assert_eq!(asked.len(), 8);
    assert_eq!(run.failed, 4);
}

#[test]
fn downloads_are_counted() {
    let mut d = downloader();
    let mut failures: Vec<String> = Vec::new();
    let mut run = GalleryRun::new(&gallery("t", "org", 2, 2));
    run.next(true, false);
    run.record(DownloadResult::Success, &mut d, &mut failures);
    run.next(true, false);
    run.record(DownloadResult::AlreadyExists, &mut d, &mut failures);
    assert_eq!(d.files_downloaded, 1);
    assert!(matches!(run.next(true, false), GalleryStep::Done(true)));
}

#[test]
fn gallery_is_given_up_after_too_many_failures() {
    let mut failures: Vec<String> = Vec::new();
    let mut run = GalleryRun::new(&gallery("t", "org", 2, 1));
    let results = vec![DownloadResult::Failed(None); 5];
    let (complete, asked, _) = walk_through(&mut run, &results, &mut failures);
    assert!(!complete);
    assert_eq!(asked.len(), 4);
    assert!(failures.is_empty());
}

#[test]
fn low_disk_space_pauses_downloads() {
    let mut run = GalleryRun::new(&gallery("t", "org", 100, 2));
    assert!(matches!(run.next(true, true), GalleryStep::Pause { seconds: 300 }));
    assert!(matches!(run.next(true, false), GalleryStep::File { index: 1, retry: 1 }));
    assert!(matches!(run.next(false, true), GalleryStep::Done(false)));
    let mut pauses = 1;
    let complete = loop {
        match run.next(true, true) {
            GalleryStep::Pause { .. } => pauses += 1,
            GalleryStep::Done(complete) => break complete,
            GalleryStep::File { .. } => panic!(),
        }
    };
    assert!(!complete);
    assert_eq!(pauses, 20);
}

#[test]
fn gallery_that_lists_more_files_is_complete_with_as_many_as_it_has() {
    let mut failures: Vec<String> = Vec::new();
    let mut run = GalleryRun::new(&gallery("t", "org", 1, 2));
    let results = [DownloadResult::Success, failed()];
    let (complete, asked, _) = walk_through(&mut run, &results, &mut failures);
    assert!(complete);
    assert_eq!(asked, vec![(0, 1), (1, 1)]);
    assert_eq!(run.there, vec![true, false]);
}

#[test]
fn gallery_that_lists_too_few_files_is_not_complete() {
    assert!(matches!(
        GalleryRun::new(&gallery("t", "org", 1, 0)).next(true, false),
        GalleryStep::Done(false)
    ));
    assert!(matches!(
        GalleryRun::new(&gallery("t", "org", 1, 1)).next(false, false),
        GalleryStep::Done(false)
    ));
    assert!(matches!(
        GalleryRun::new(&gallery("t", "org", 0, 0)).next(true, false),
        GalleryStep::Done(true)
    ));
    let mut failures: Vec<String> = Vec::new();
    let mut run = GalleryRun::new(&gallery("t", "org", 100, 1));
    let results = vec![DownloadResult::AlreadyExists; 11];
    let (complete, asked, _) = walk_through(&mut run, &results, &mut failures);
    assert!(!complete);
    assert_eq!(asked.last(), Some(&(0, 10)));
}

#[test]
fn queue_is_worked_through() {
    let mut d = downloader();
    let mut queue = QueueRun::new();
    assert!(matches!(queue.next(&d, false), QueueStep::Stop));
    d.start();
    assert!(matches!(queue.next(&d, true), QueueStep::Stop));
    match queue.next(&d, false) {
        QueueStep::Fetch { failures, mark } => {
            assert!(failures.is_empty());
            assert_eq!(mark, None);
        }
        _ => panic!(),
    }
    let g = gallery("t", "780", 1, 1);
    match queue.reply(&mut d, Ok(Some(g.clone()))) {
        QueueReply::Download(next) => assert_eq!(next.gid, 5),
        _ => panic!(),
    }
    queue.failures.push("f".to_string());
    queue.gallery_done(&g);
    match queue.next(&d, false) {
        QueueStep::Fetch { failures, mark } => {
            assert_eq!(failures, vec!["f".to_string()]);
            assert_eq!(mark, Some((5, "780".to_string())));
        }
        _ => panic!(),
    }
    assert!(queue.failures.is_empty());
    let error = ApiError::Network("x".to_string());
    assert!(matches!(queue.reply(&mut d, Err(error)), QueueReply::RetryAfter(60)));
    assert!(matches!(queue.reply(&mut d, Ok(None)), QueueReply::Empty));
    assert!(matches!(queue.next(&d, false), QueueStep::Stop));
    queue.failures.push("g".to_string());
    assert_eq!(queue.finish(&mut d), vec!["g".to_string()]);
    assert!(!d.is_running());
}
