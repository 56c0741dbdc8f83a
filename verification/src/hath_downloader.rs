//! The H@H download queue: galleries that users queue on the website are fetched
//! from the server one by one, and downloaded over the H@H network.
//!
//! The caller talks to the network and to the file system; the order of things,
//! retries, failures and checks are decided here.

use crate::api;
use crate::api::ApiError;
use crate::api::GalleryFileMeta;
use crate::api::GalleryMeta;
use crate::api::HahApiClient;
use crate::config::Config;
use crate::digest;
use crate::text;
use crate::web;
use vstd::prelude::*;
use vstd::utf8::encode_utf8;

verus! {

/// Client version that is named to servers.
pub const CLIENT_VERSION: &'static str = "1.6.4";

/// How often a gallery is gone through until all its files are there.
pub const MAX_RETRIES: i32 = 10;

/// Seconds to wait before the queue is asked again after an error.
pub const QUEUE_RETRY_DELAY: u64 = 60;

/// Bytes to keep free beyond the configured minimum.
pub const SPACE_BUFFER: u64 = 0x4000_0000;

/// Seconds to wait where disk space is low.
pub const LOW_SPACE_DELAY: u64 = 300;

/// What came of the download of a file.
#[derive(Debug, Clone)]
pub enum DownloadResult {
    Success,
    AlreadyExists,
    /// Failed, with what there is to report to the server.
    Failed(Option<String>),
}

/// The H@H download queue manager.
pub struct HathDownloader {
    pub config: Config,
    pub download_dir: String,
    pub running: bool,
    pub downloads_available: bool,
    pub files_downloaded: u64,
    pub bytes_downloaded: u64,
}

// ---------------------------------------------------------------------------
// Names and texts
// ---------------------------------------------------------------------------

/// What follows the title in the name of a gallery's directory: its number, and
/// its resolution where that is not the original one.
pub open spec fn directory_postfix(gid: i32, minxres: Seq<char>) -> Seq<char> {
    " ["@ + text::decimal_int(gid as int) + (if minxres == "org"@ {
        ""@
    } else {
        "-"@ + minxres + "x"@
    }) + "]"@
}

/// The bytes of the title that the name of a directory has room for.
pub open spec fn title_room(gid: i32, minxres: Seq<char>) -> int {
    125 - text::byte_len(directory_postfix(gid, minxres)) - 3
}

/// A directory can be named: the postfix leaves room for a title, and a title
/// that is too long can be cut there.
pub open spec fn can_name_directory(meta: api::MetaView) -> bool {
    let room = title_room(meta.gid, meta.minxres);
    &&& room >= 0
    &&& text::byte_len(meta.title) > room ==> text::byte_prefix(meta.title, room as nat) is Some
}

/// The name of a gallery's directory.
pub open spec fn directory_name(meta: api::MetaView) -> Seq<char> {
    let room = title_room(meta.gid, meta.minxres);
    let postfix = directory_postfix(meta.gid, meta.minxres);
    if text::byte_len(meta.title) > room {
        text::byte_prefix(meta.title, room as nat)->0 + "..."@ + postfix
    } else {
        meta.title + postfix
    }
}

/// The text of a gallery's information file.
pub open spec fn info_text(meta: api::MetaView) -> Seq<char> {
    "Title: "@ + meta.title + "\nGID: "@ + text::decimal_int(meta.gid as int) + "\nFiles: "@
        + text::decimal_int(meta.filecount as int) + "\nResolution: "@ + meta.minxres + "\n\n"@
        + meta.information
}

/// What names a file in a download request.
pub open spec fn file_key(gid: i32, file: api::FileMetaView) -> Seq<char> {
    text::decimal_int(gid as int) + "-"@ + text::decimal_int(file.page as int) + "-"@
        + text::decimal_int(file.fileindex as int) + "-"@ + file.xres
}

/// The value of the header that authenticates a download request.
pub open spec fn request_header(
    client_id: Seq<char>,
    client_key: Seq<char>,
    gid: i32,
    file: api::FileMetaView,
) -> Seq<char> {
    client_id + "-"@ + digest::sha1_hex(encode_utf8(client_key + file_key(gid, file)))
}

/// What is reported of a download that failed: host, file and resolution.
pub open spec fn failure_info(host: Option<Seq<char>>, file: api::FileMetaView) -> Option<
    Seq<char>,
> {
    match host {
        Some(h) => Some(
            h + "-"@ + text::decimal_int(file.fileindex as int) + "-"@ + file.xres,
        ),
        None => None,
    }
}

/// The hash of the data is the expected one, in either case of its letters.
pub open spec fn hash_matches(data: Seq<u8>, expected: Seq<char>) -> bool {
    text::same_ignoring_case(digest::sha1_hex(data), expected)
}

fn directory_postfix_of(gallery: &GalleryMeta) -> (r: String)
    ensures
        r@ == directory_postfix(gallery.gid, gallery.minxres@),
{
    let mut resolution: String = "".to_string();
    if !text::same(gallery.minxres.as_str(), "org") {
        resolution = "-".to_string();
        resolution.append(gallery.minxres.as_str());
        resolution.append("x");
    }
    let mut r = " [".to_string();
    r.append(text::decimal_of_int(gallery.gid as i64).as_str());
    r.append(resolution.as_str());
    r.append("]");
    r
}

/// What is reported of a download that failed, from the host it was to come from.
pub fn failure_report(host: Option<String>, file: &GalleryFileMeta) -> (r: Option<String>)
    ensures
        web::optional_text(r) == failure_info(web::optional_text(host), file@),
{
    match host {
        Some(h) => {
            let mut info = h;
            info.append("-");
            info.append(text::decimal_of_int(file.fileindex as i64).as_str());
            info.append("-");
            info.append(file.xres.as_str());
            Some(info)
        },
        None => None,
    }
}

impl HathDownloader {
    pub fn new(config: Config, download_dir: String) -> (r: Self)
        ensures
            r == (HathDownloader {
                config,
                download_dir,
                running: false,
                downloads_available: true,
                files_downloaded: 0,
                bytes_downloaded: 0,
            }),
    {
        HathDownloader {
            config,
            download_dir,
            running: false,
            downloads_available: true,
            files_downloaded: 0,
            bytes_downloaded: 0,
        }
    }

    /// Get the download directory path.
    pub fn get_download_dir(&self) -> (r: &str)
        ensures
            r@ == self.download_dir@,
    {
        self.download_dir.as_str()
    }

    /// Check if the downloader is running.
    pub fn is_running(&self) -> (r: bool)
        ensures
            r == self.running,
    {
        self.running
    }

    /// Start the download loop.
    pub fn start(&mut self)
        ensures
            *final(self) == (HathDownloader {
                running: true,
                downloads_available: true,
                ..*old(self)
            }),
    {
        self.running = true;
        self.downloads_available = true;
    }

    /// Stop the download loop.
    pub fn stop(&mut self)
        ensures
            *final(self) == (HathDownloader { running: false, ..*old(self) }),
    {
        self.running = false;
    }

    /// Get download statistics: files and bytes.
    pub fn get_stats(&self) -> (r: (u64, u64))
        ensures
            r == (self.files_downloaded, self.bytes_downloaded),
    {
        (self.files_downloaded, self.bytes_downloaded)
    }

    /// Whether the directory of a gallery can be named.
    pub fn has_gallery_dir(&self, gallery: &GalleryMeta) -> (r: bool)
        ensures
            r == can_name_directory(gallery@),
    {
        let postfix = directory_postfix_of(gallery);
        let taken: usize = text::byte_length(postfix.as_str());
        if taken > 122 {
            return false;
        }
        let room: usize = 122 - taken;
        text::byte_length(gallery.title.as_str()) <= room || text::prefix_of_bytes(
            gallery.title.as_str(),
            room,
        ).is_some()
    }

    /// The name of a gallery's directory, below the download directory.
    pub fn create_gallery_dir(&self, gallery: &GalleryMeta) -> (r: String)
        requires
            can_name_directory(gallery@),
        ensures
            r@ == directory_name(gallery@),
    {
        let postfix = directory_postfix_of(gallery);
        let room: usize = 125 - text::byte_length(postfix.as_str()) - 3;
        let mut name: String = gallery.title.clone();
        if text::byte_length(gallery.title.as_str()) > room {
            if let Some(prefix) = text::prefix_of_bytes(gallery.title.as_str(), room) {
                name = prefix;
            }
            name.append("...");
        }
        name.append(postfix.as_str());
        name
    }

    /// The text of a gallery's information file.
    pub fn write_gallery_info(&self, gallery: &GalleryMeta) -> (r: String)
        ensures
            r@ == info_text(gallery@),
    {
        let mut content = "Title: ".to_string();
        content.append(gallery.title.as_str());
        content.append("\nGID: ");
        content.append(text::decimal_of_int(gallery.gid as i64).as_str());
        content.append("\nFiles: ");
        content.append(text::decimal_of_int(gallery.filecount as i64).as_str());
        content.append("\nResolution: ");
        content.append(gallery.minxres.as_str());
        content.append("\n\n");
        content.append(gallery.information.as_str());
        content
    }

    /// The name of a file in its gallery's directory.
    pub fn file_name(&self, file: &GalleryFileMeta) -> (r: String)
        ensures
            r@ == file.filename@ + "."@ + file.filetype@,
    {
        let mut name = file.filename.clone();
        name.append(".");
        name.append(file.filetype.as_str());
        name
    }

    /// Verify the hash of a file's data.
    pub fn verify_file_hash(&self, data: &[u8], expected: &str) -> (r: bool)
        ensures
            r == hash_matches(data@, expected@),
    {
        let actual = digest::sha1_hex_of(data);
        text::same_ignore_case(actual.as_str(), expected)
    }

    /// Whether a file that is there already is good. With a known hash its data
    /// decide (`None` where they cannot be read), without one whether there are any.
    pub fn keeps_existing(&self, file: &GalleryFileMeta, data: Option<&[u8]>, length: u64) -> (r:
        bool)
        ensures
            r == is_good(file@, slice_bytes(data), length),
    {
        match &file.sha1hash {
            Some(expected) => match data {
                Some(bytes) => self.verify_file_hash(bytes, expected.as_str()),
                None => false,
            },
            None => length > 0,
        }
    }

    /// Check if disk space is low: fewer bytes are free where the downloads go than the
    /// configured minimum and a buffer.
    pub fn is_low_disk_space(&self, free: u64) -> (r: bool)
        ensures
            r == (free < self.config.min_free_space_bytes + 0x4000_0000),
    {
        (free as u128) < self.config.min_free_space_bytes as u128 + SPACE_BUFFER as u128
    }

    /// Generate the hash of the `Hath-Request` header.
    pub fn generate_hath_request_header(&self, data: &str) -> (r: String)
        ensures
            r@ == digest::sha1_hex(encode_utf8(self.config.client_key@ + data@)),
    {
        let input = self.config.client_key.clone().concat(data);
        digest::sha1_hex_of(input.as_str().as_bytes())
    }

    /// The `Hath-Request` header of a download request.
    pub fn download_header(&self, gid: i32, file: &GalleryFileMeta) -> (r: String)
        ensures
            r@ == request_header(
                self.config.client_id@,
                self.config.client_key@,
                gid,
                file@,
            ),
    {
        let mut key = text::decimal_of_int(gid as i64);
        key.append("-");
        key.append(text::decimal_of_int(file.page as i64).as_str());
        key.append("-");
        key.append(text::decimal_of_int(file.fileindex as i64).as_str());
        key.append("-");
        key.append(file.xres.as_str());
        let mut header = self.config.client_id.clone();
        header.append("-");
        header.append(self.generate_hath_request_header(key.as_str()).as_str());
        header
    }

    /// Extract failure info for reporting.
    pub fn extract_failure_info(&self, url: &str, file: &GalleryFileMeta) -> (r: Option<String>)
        ensures
            web::optional_text(r) == failure_info(web::host_of_url(url@), file@),
    {
        failure_report(web::url_host(url), file)
    }

    /// Check what a download from `url` brought: the failure, where the hash is
    /// known and not that of the bytes.
    pub fn download_gallery_file(&self, file: &GalleryFileMeta, url: &str, bytes: &[u8]) -> (r:
        Option<DownloadResult>)
        ensures
            match r {
                None => data_match(file@, bytes@),
                Some(failure) => {
                    &&& !data_match(file@, bytes@)
                    &&& failure is Failed
                    &&& web::optional_text(failure->Failed_0) == failure_info(
                        web::host_of_url(url@),
                        file@,
                    )
                },
            },
    {
        if let Some(expected) = &file.sha1hash {
            if !self.verify_file_hash(bytes, expected.as_str()) {
                return Some(DownloadResult::Failed(self.extract_failure_info(url, file)));
            }
        }
        None
    }

    /// The bytes of a file have been written.
    pub fn file_written(&mut self, bytes: u64)
        ensures
            *final(self) == (HathDownloader {
                bytes_downloaded: old(self).bytes_downloaded.wrapping_add(bytes),
                ..*old(self)
            }),
    {
        self.bytes_downloaded = self.bytes_downloaded.wrapping_add(bytes);
    }

    /// The hash to cache a downloaded file under, where it lies in a static range.
    pub fn cache_hash(&self, client: &HahApiClient, file: &GalleryFileMeta, bytes: &[u8]) -> (r:
        Option<String>)
        requires
            has_hash_prefix(file@),
        ensures
            web::optional_text(r) == cached_under(
                file@,
                bytes@,
                client.server_settings@.static_ranges,
            ),
    {
        let hash = match &file.sha1hash {
            Some(h) => h.clone(),
            None => {
                let h = digest::sha1_hex_of(bytes);
                proof {
                    digest::lemma_hex_is_ascii(digest::sha1_of(bytes@));
                    text::lemma_ascii_prefix(h@, 4);
                }
                h
            },
        };
        if client.is_in_static_range(hash.as_str()) {
            Some(hash)
        } else {
            None
        }
    }
}

/// The free bytes that a report on a file system gives, in the portable format of `df`:
/// the fourth word of its second line counts blocks of 1024 bytes.
pub open spec fn reported_space(report: Seq<char>) -> Option<int> {
    let lines = text::lines(report);
    if lines.len() < 2 || text::words(lines[1]).len() < 4 {
        None
    } else {
        match text::parsed_unsigned(text::words(lines[1])[3], u64::MAX as int) {
            Some(blocks) => if blocks * 1024 <= u64::MAX {
                Some(blocks * 1024)
            } else {
                None
            },
            None => None,
        }
    }
}

/// Read a report on the file system that the downloads go to: the bytes that are free.
pub fn free_space(report: &str) -> (r: Option<u64>)
    ensures
        match r {
            Some(free) => reported_space(report@) == Some(free as int),
            None => reported_space(report@) is None,
        },
{
    let lines = text::lines_of(report);
    proof {
        assert(text::texts(lines@).len() == lines@.len());
    }
    if lines.len() < 2 {
        return None;
    }
    proof {
        assert(text::texts(lines@)[1] == lines@[1]@);
    }
    let words = text::words_of(lines[1].as_str());
    proof {
        assert(text::texts(words@).len() == words@.len());
    }
    if words.len() < 4 {
        return None;
    }
    proof {
        assert(text::texts(words@)[3] == words@[3]@);
    }
    match text::parse_unsigned(words[3].as_str(), u64::MAX) {
        Some(blocks) => blocks.checked_mul(1024),
        None => None,
    }
}

// ---------------------------------------------------------------------------
// Downloading a file
// ---------------------------------------------------------------------------

/// How far the download of a file has come.
#[derive(Debug, Clone, Copy, PartialEq, Eq, Structural)]
pub enum FileStage {
    /// Nothing has been done.
    Queued,
    /// The server has been asked for the file's address.
    Address,
    /// The file has been asked for.
    Data,
    /// The file is being written.
    Writing,
    /// The file is there, and is being cached.
    Caching,
    /// The download is over.
    Over,
}

/// What to do next for a file.
pub enum FileAction {
    /// Ask the server for the file's address; a file that is there is removed first
    /// where `remove` says so.
    AskAddress { remove: bool },
    /// Fetch this address, with this `Hath-Request` header.
    Fetch { url: String, header: String },
    /// Write the data to the file.
    Write,
    /// Store the data in the cache under this hash.
    Cache { hash: String },
    /// The download is over; a file that was written in part is removed where
    /// `remove` says so.
    Done { result: DownloadResult, remove: bool },
}

/// How the writing of a file ended.
#[derive(Debug, Clone, Copy, PartialEq, Eq, Structural)]
pub enum WriteOutcome {
    /// The file could not be created.
    NotCreated,
    /// Not all of it could be written.
    Interrupted,
    /// It has been written.
    Complete,
}

/// A file that is there already: its data, where they can be read, and its length.
pub struct ExistingFile<'a> {
    pub data: Option<&'a [u8]>,
    pub length: u64,
}

/// The bytes of a slice, where there is one.
pub open spec fn slice_bytes(o: Option<&[u8]>) -> Option<Seq<u8>> {
    match o {
        Some(s) => Some(s@),
        None => None,
    }
}

/// A file that is there already is good: with a known hash its data decide, without
/// one whether there are any.
pub open spec fn is_good(
    file: api::FileMetaView,
    data: Option<Seq<u8>>,
    length: u64,
) -> bool {
    match file.sha1hash {
        Some(expected) => match data {
            Some(bytes) => hash_matches(bytes, expected),
            None => false,
        },
        None => length > 0,
    }
}

/// The data are those of the file, as far as its hash is known.
pub open spec fn data_match(file: api::FileMetaView, bytes: Seq<u8>) -> bool {
    match file.sha1hash {
        Some(expected) => hash_matches(bytes, expected),
        None => true,
    }
}

/// The hash to cache a file under, where it lies in a static range.
pub open spec fn cached_under(
    file: api::FileMetaView,
    bytes: Seq<u8>,
    ranges: Set<Seq<char>>,
) -> Option<Seq<char>> {
    let hash = match file.sha1hash {
        Some(hash) => hash,
        None => digest::sha1_hex(bytes),
    };
    if text::byte_len(hash) >= 4 && ranges.contains(text::byte_prefix(hash, 4)->0) {
        Some(hash)
    } else {
        None
    }
}

/// The first four bytes of the file's hash can be told, where it has that many.
pub open spec fn has_hash_prefix(file: api::FileMetaView) -> bool {
    match file.sha1hash {
        Some(hash) => text::byte_len(hash) >= 4 ==> text::byte_prefix(hash, 4) is Some,
        None => true,
    }
}

/// The download of one file of a gallery.
pub struct FileRun {
    pub gid: i32,
    pub stage: FileStage,
    /// The address that the server gave.
    pub url: String,
}

impl FileRun {
    /// Only the stage differs.
    pub open spec fn moved(&self, before: &FileRun, stage: FileStage) -> bool {
        *self == (FileRun { stage, ..*before })
    }

    pub fn new(gid: i32) -> (r: Self)
        ensures
            r.gid == gid,
            r.stage == FileStage::Queued,
            r.url@.len() == 0,
    {
        FileRun { gid, stage: FileStage::Queued, url: String::new() }
    }

    /// Begin, with what is there already. A good file is kept; one whose hash is
    /// known and not the right one is removed.
    pub fn start(
        &mut self,
        downloader: &HathDownloader,
        file: &GalleryFileMeta,
        existing: Option<ExistingFile>,
    ) -> (action: FileAction)
        requires
            old(self).stage == FileStage::Queued,
        ensures
            ({
                let good = existing is Some && is_good(
                    file@,
                    slice_bytes(existing->0.data),
                    existing->0.length,
                );
                &&& good ==> {
                    &&& final(self).moved(old(self), FileStage::Over)
                    &&& action == (FileAction::Done {
                        result: DownloadResult::AlreadyExists,
                        remove: false,
                    })
                }
                &&& !good ==> {
                    &&& final(self).moved(old(self), FileStage::Address)
                    &&& action == (FileAction::AskAddress {
                        remove: existing is Some && file.sha1hash is Some,
                    })
                }
            }),
    {
        if let Some(there) = existing {
            if downloader.keeps_existing(file, there.data, there.length) {
                self.stage = FileStage::Over;
                return FileAction::Done { result: DownloadResult::AlreadyExists, remove: false };
            }
            self.stage = FileStage::Address;
            return FileAction::AskAddress { remove: file.sha1hash.is_some() };
        }
        self.stage = FileStage::Address;
        FileAction::AskAddress { remove: false }
    }

    /// The server has answered where the file is.
    pub fn address_arrived(
        &mut self,
        downloader: &HathDownloader,
        file: &GalleryFileMeta,
        answer: Result<Option<String>, ApiError>,
    ) -> (action: FileAction)
        requires
            old(self).stage == FileStage::Address,
        ensures
            match answer {
                Ok(Some(url)) => {
                    &&& *final(self) == (FileRun {
                        stage: FileStage::Data,
                        url: final(self).url,
                        ..*old(self)
                    })
                    &&& final(self).url@ == url@
                    &&& action is Fetch
                    &&& action->url@ == url@
                    &&& action->header@ == request_header(
                        downloader.config.client_id@,
                        downloader.config.client_key@,
                        old(self).gid,
                        file@,
                    )
                },
                _ => {
                    &&& final(self).moved(old(self), FileStage::Over)
                    &&& action == (FileAction::Done {
                        result: DownloadResult::Failed(None),
                        remove: false,
                    })
                },
            },
    {
        match answer {
            Ok(Some(url)) => {
                self.stage = FileStage::Data;
                self.url = url.clone();
                let header = downloader.download_header(self.gid, file);
                FileAction::Fetch { url, header }
            },
            _ => {
                self.stage = FileStage::Over;
                FileAction::Done { result: DownloadResult::Failed(None), remove: false }
            },
        }
    }

    /// The data have arrived, or could not be had (`None`). Data that are not those
    /// of the file are a failure too, which is reported with the host.
    pub fn data_arrived(
        &mut self,
        downloader: &HathDownloader,
        file: &GalleryFileMeta,
        bytes: Option<&[u8]>,
    ) -> (action: FileAction)
        requires
            old(self).stage == FileStage::Data,
        ensures
            if bytes is Some && data_match(file@, bytes->0@) {
                &&& final(self).moved(old(self), FileStage::Writing)
                &&& action is Write
            } else {
                &&& final(self).moved(old(self), FileStage::Over)
                &&& action is Done
                &&& !action->Done_remove
                &&& action->result is Failed
                &&& web::optional_text(action->result->Failed_0) == failure_info(
                    web::host_of_url(old(self).url@),
                    file@,
                )
            },
    {
        let failure = match bytes {
            Some(data) => downloader.download_gallery_file(file, self.url.as_str(), data),
            None => Some(
                DownloadResult::Failed(downloader.extract_failure_info(self.url.as_str(), file)),
            ),
        };
        match failure {
            Some(result) => {
                self.stage = FileStage::Over;
                FileAction::Done { result, remove: false }
            },
            None => {
                self.stage = FileStage::Writing;
                FileAction::Write
            },
        }
    }

    /// The writing of the file has ended. What was written counts, and is cached
    /// where it lies in a static range.
    pub fn written(
        &mut self,
        downloader: &mut HathDownloader,
        client: &HahApiClient,
        file: &GalleryFileMeta,
        bytes: &[u8],
        outcome: WriteOutcome,
    ) -> (action: FileAction)
        requires
            old(self).stage == FileStage::Writing,
            outcome == WriteOutcome::Complete ==> has_hash_prefix(file@),
        ensures
            outcome != WriteOutcome::Complete ==> {
                &&& final(self).moved(old(self), FileStage::Over)
                &&& *final(downloader) == *old(downloader)
                &&& action == (FileAction::Done {
                    result: DownloadResult::Failed(None),
                    remove: outcome == WriteOutcome::Interrupted,
                })
            },
            outcome == WriteOutcome::Complete ==> {
                &&& *final(downloader) == (HathDownloader {
                    bytes_downloaded: old(downloader).bytes_downloaded.wrapping_add(
                        bytes@.len() as u64,
                    ),
                    ..*old(downloader)
                })
                &&& match cached_under(file@, bytes@, client.server_settings@.static_ranges) {
                    Some(hash) => {
                        &&& final(self).moved(old(self), FileStage::Caching)
                        &&& action is Cache
                        &&& action->hash@ == hash
                    },
                    None => {
                        &&& final(self).moved(old(self), FileStage::Over)
                        &&& action == (FileAction::Done {
                            result: DownloadResult::Success,
                            remove: false,
                        })
                    },
                }
            },
    {
        match outcome {
            WriteOutcome::NotCreated => {
                self.stage = FileStage::Over;
                return FileAction::Done { result: DownloadResult::Failed(None), remove: false };
            },
            WriteOutcome::Interrupted => {
                self.stage = FileStage::Over;
                return FileAction::Done { result: DownloadResult::Failed(None), remove: true };
            },
            WriteOutcome::Complete => {},
        }
        downloader.file_written(bytes.len() as u64);
        match downloader.cache_hash(client, file, bytes) {
            Some(hash) => {
                self.stage = FileStage::Caching;
                FileAction::Cache { hash }
            },
            None => {
                self.stage = FileStage::Over;
                FileAction::Done { result: DownloadResult::Success, remove: false }
            },
        }
    }

    /// The file has been cached, or could not be: it is there in any case.
    pub fn cached(&mut self) -> (action: FileAction)
        requires
            old(self).stage == FileStage::Caching,
        ensures
            final(self).moved(old(self), FileStage::Over),
            action == (FileAction::Done { result: DownloadResult::Success, remove: false }),
    {
        self.stage = FileStage::Over;
        FileAction::Done { result: DownloadResult::Success, remove: false }
    }
}

/// What a download writes is kept when it is found again: the data that pass as those
/// of the file make a good file, unless they are empty and no hash is known.
pub proof fn law_written_files_are_good(file: api::FileMetaView, bytes: Seq<u8>)
    requires
        data_match(file, bytes),
        file.sha1hash is Some || bytes.len() > 0,
        bytes.len() <= u64::MAX,
    ensures
        is_good(file, Some(bytes), bytes.len() as u64),
{
}

// ---------------------------------------------------------------------------
// Downloading a gallery
// ---------------------------------------------------------------------------

/// A gallery that is being downloaded. Its files are gone through again and again
/// until as many of them are there as it has.
pub struct GalleryRun {
    /// The number of files that the gallery is said to have.
    pub filecount: i32,
    /// Which of the files that it lists are there: downloaded, or found, the last time
    /// that they had their turn.
    pub there: Vec<bool>,
    /// Rounds completed.
    pub retry: i32,
    /// The file that is next.
    pub index: usize,
    /// Downloads that failed.
    pub failed: i32,
}

/// The number of files that are there.
pub open spec fn count_there(there: Seq<bool>) -> nat
    decreases there.len(),
{
    if there.len() == 0 {
        0
    } else {
        count_there(there.drop_last()) + if there.last() {
            1nat
        } else {
            0
        }
    }
}

/// No more files are there than are listed, and as many only where each is.
proof fn lemma_count_there(there: Seq<bool>)
    ensures
        count_there(there) <= there.len(),
        count_there(there) == there.len() ==> forall|i: int|
            0 <= i < there.len() ==> #[trigger] there[i],
    decreases there.len(),
{
    if there.len() > 0 {
        let rest = there.drop_last();
        lemma_count_there(rest);
        if count_there(there) == there.len() {
            assert forall|i: int| 0 <= i < there.len() implies #[trigger] there[i] by {
                if i < rest.len() {
                    assert(rest[i] == there[i]);
                }
            }
        }
    }
}

/// What a gallery that is being downloaded stands for.
#[verifier::ext_equal]
pub struct RunView {
    pub filecount: i32,
    pub there: Seq<bool>,
    pub retry: i32,
    pub index: int,
    pub failed: i32,
}

impl RunView {
    /// The walk is within its bounds.
    pub open spec fn wf(self) -> bool {
        &&& 0 <= self.retry <= MAX_RETRIES
        &&& self.retry == MAX_RETRIES ==> self.index == 0
        &&& 0 <= self.index <= self.there.len() <= usize::MAX
        &&& i32::MIN <= 2 * self.filecount <= i32::MAX
    }

    /// The gallery is complete: as many of its files are there as it is said to have.
    pub open spec fn complete(self) -> bool {
        count_there(self.there) >= self.filecount
    }

    /// The run once the file that was next has been left for the next round.
    pub open spec fn skipped(self) -> RunView {
        RunView { index: self.index + 1, ..self }
    }

    /// The run once the file that was next has been dealt with.
    pub open spec fn counted(self, result: DownloadResult) -> RunView {
        RunView {
            there: self.there.update(self.index, !(result is Failed)),
            index: self.index + 1,
            failed: if result is Failed {
                self.failed.wrapping_add(1)
            } else {
                self.failed
            },
            ..self
        }
    }
}

impl View for GalleryRun {
    type V = RunView;

    open spec fn view(&self) -> RunView {
        RunView {
            filecount: self.filecount,
            there: self.there@,
            retry: self.retry,
            index: self.index as int,
            failed: self.failed,
        }
    }
}

/// What to do next for a gallery.
pub enum GalleryStep {
    /// Download this file; the server is told how often it has been tried.
    File { index: usize, retry: i32 },
    /// Disk space is low: wait for this many seconds. The file that was next is left
    /// for the next round.
    Pause { seconds: u64 },
    /// The gallery is done with, and complete or not.
    Done(bool),
}

/// Where the walk through a gallery's files stands, and what is next, where the
/// downloader is still running or not, and disk space is low or not.
pub open spec fn walk(run: RunView, running: bool, low_space: bool) -> (RunView, GalleryStep)
    decreases MAX_RETRIES - run.retry,
{
    if run.index == 0 && (run.retry >= MAX_RETRIES || run.failed >= 2 * run.filecount) {
        (run, GalleryStep::Done(run.complete()))
    } else if run.index < run.there.len() {
        if !running {
            (run, GalleryStep::Done(false))
        } else if low_space {
            (run.skipped(), GalleryStep::Pause { seconds: LOW_SPACE_DELAY })
        } else {
            (run, GalleryStep::File { index: run.index as usize, retry: (run.retry + 1) as i32 })
        }
    } else if run.complete() {
        (run, GalleryStep::Done(true))
    } else if run.retry < MAX_RETRIES {
        walk(RunView { retry: (run.retry + 1) as i32, index: 0, ..run }, running, low_space)
    } else {
        (run, GalleryStep::Done(false))
    }
}

impl GalleryRun {
    /// The walk is within its bounds.
    pub open spec fn wf(&self) -> bool {
        self@.wf()
    }

    pub fn new(gallery: &GalleryMeta) -> (r: Self)
        requires
            i32::MIN <= 2 * gallery.filecount <= i32::MAX,
        ensures
            r.wf(),
            r@ == (RunView {
                filecount: gallery.filecount,
                there: Seq::new(gallery.files@.len(), |i: int| false),
                retry: 0,
                index: 0,
                failed: 0,
            }),
    {
        let mut there: Vec<bool> = Vec::new();
        while there.len() < gallery.files.len()
            invariant
                there.len() <= gallery.files.len(),
                there@ == Seq::new(there@.len(), |i: int| false),
            decreases gallery.files.len() - there.len(),
        {
            there.push(false);
        }
        GalleryRun { filecount: gallery.filecount, there, retry: 0, index: 0, failed: 0 }
    }

    /// Whether as many files are there as the gallery has.
    pub fn is_complete(&self) -> (r: bool)
        ensures
            r == self@.complete(),
    {
        let mut count: usize = 0;
        let mut i: usize = 0;
        proof {
            assert(self.there@.take(0) =~= Seq::empty());
        }
        while i < self.there.len()
            invariant
                i <= self.there.len(),
                count <= i,
                count == count_there(self.there@.take(i as int)),
            decreases self.there.len() - i,
        {
            proof {
                assert(self.there@.take(i + 1).drop_last() =~= self.there@.take(i as int));
            }
            if self.there[i] {
                count = count + 1;
            }
            i = i + 1;
        }
        proof {
            assert(self.there@.take(i as int) =~= self.there@);
        }
        self.filecount <= 0 || count as u64 >= self.filecount as u64
    }

    /// What is next, where the downloader is still running or not, and disk space is
    /// low or not.
    pub fn next(&mut self, running: bool, low_space: bool) -> (step: GalleryStep)
        requires
            old(self).wf(),
        ensures
            final(self).wf(),
            (final(self)@, step) == walk(old(self)@, running, low_space),
            step matches GalleryStep::File { index, retry } ==> {
                &&& index < old(self).there@.len()
                &&& index == final(self).index
                &&& final(self).retry < MAX_RETRIES
            },
            step == GalleryStep::Done(true) ==> count_there(final(self).there@) >= old(
                self,
            ).filecount,
            step == GalleryStep::Done(true) && final(self).there@.len() <= old(self).filecount
                ==> forall|i: int|
                0 <= i < final(self).there@.len() ==> #[trigger] final(self).there@[i],
            final(self).there@ == old(self).there@,
    {
        loop
            invariant
                self.wf(),
                self.there@ == old(self).there@,
                self.filecount == old(self).filecount,
                walk(self@, running, low_space) == walk(old(self)@, running, low_space),
            decreases MAX_RETRIES - self.retry,
        {
            proof {
                lemma_count_there(self.there@);
            }
            if self.index == 0 && (self.retry >= MAX_RETRIES || self.failed >= 2 * self.filecount) {
                return GalleryStep::Done(self.is_complete());
            }
            if self.index < self.there.len() {
                if !running {
                    return GalleryStep::Done(false);
                }
                if low_space {
                    self.index = self.index + 1;
                    return GalleryStep::Pause { seconds: LOW_SPACE_DELAY };
                }
                return GalleryStep::File { index: self.index, retry: self.retry + 1 };
            }
            if self.is_complete() {
                return GalleryStep::Done(true);
            }
            if self.retry >= MAX_RETRIES {
                return GalleryStep::Done(false);
            }
            self.retry = self.retry + 1;
            self.index = 0;
        }
    }

    /// The file that was next has been dealt with: the seconds to wait before the
    /// next one. What there is to report of a failure is noted once.
    pub fn record(
        &mut self,
        result: DownloadResult,
        downloader: &mut HathDownloader,
        failures: &mut Vec<String>,
    ) -> (wait: u64)
        requires
            old(self).wf(),
            old(self).index < old(self).there@.len(),
            old(self).retry < MAX_RETRIES,
        ensures
            final(self).wf(),
            final(self)@ == old(self)@.counted(result),
            *final(downloader) == (HathDownloader {
                files_downloaded: if result is Success {
                    old(downloader).files_downloaded.wrapping_add(1)
                } else {
                    old(downloader).files_downloaded
                },
                ..*old(downloader)
            }),
            text::texts(final(failures)@) == (match result {
                DownloadResult::Failed(Some(info)) => noted(text::texts(old(failures)@), info@),
                _ => text::texts(old(failures)@),
            }),
            wait == (match result {
                DownloadResult::Success => 1,
                DownloadResult::AlreadyExists => 0,
                DownloadResult::Failed(_) => 5int,
            }),
    {
        let index: usize = self.index;
        self.index = index + 1;
        match result {
            DownloadResult::Success => {
                self.there.set(index, true);
                downloader.files_downloaded = downloader.files_downloaded.wrapping_add(1);
                1
            },
            DownloadResult::AlreadyExists => {
                self.there.set(index, true);
                0
            },
            DownloadResult::Failed(failure) => {
                self.there.set(index, false);
                self.failed = self.failed.wrapping_add(1);
                if let Some(info) = failure {
                    if !text::is_listed(failures, info.as_str()) {
                        let ghost before = text::texts(failures@);
                        failures.push(info);
                        proof {
                            assert(text::texts(failures@) =~= before.push(info@));
                        }
                    }
                }
                5
            },
        }
    }
}

/// A list with an entry added that it did not hold.
pub open spec fn noted(list: Seq<Seq<char>>, entry: Seq<char>) -> Seq<Seq<char>> {
    if list.contains(entry) {
        list
    } else {
        list.push(entry)
    }
}

/// Failures that are noted one after the other are noted once each, and none that
/// was noted is lost.
pub proof fn law_failures_are_noted_once(list: Seq<Seq<char>>, entry: Seq<char>)
    requires
        list.no_duplicates(),
    ensures
        noted(list, entry).no_duplicates(),
        noted(list, entry).contains(entry),
        forall|other: Seq<char>| list.contains(other) ==> #[trigger] noted(list, entry).contains(
            other,
        ),
        noted(noted(list, entry), entry) == noted(list, entry),
{
    let after = noted(list, entry);
    if !list.contains(entry) {
        assert(after[list.len() as int] == entry);
        assert forall|other: Seq<char>| list.contains(other) implies #[trigger] after.contains(
            other,
        ) by {
            let i = choose|i: int| 0 <= i < list.len() && list[i] == other;
            assert(after[i] == other);
        }
    }
}

/// A gallery that is reported complete is: as many of its files are there as it is said
/// to have, each counted once, and where it lists no more than these, every one of them.
/// One that is not was stopped, or failed too often, or has been gone through ten times,
/// with a file missing. No file is downloaded while the downloader is stopped or disk
/// space is low.
pub proof fn law_gallery_ends(run: RunView, running: bool, low_space: bool)
    requires
        run.wf(),
    ensures
        ({
            let (after, step) = walk(run, running, low_space);
            &&& after.wf()
            &&& after.there == run.there
            &&& after.filecount == run.filecount
            &&& after.failed == run.failed
            &&& step matches GalleryStep::Done(complete) ==> {
                &&& complete ==> count_there(run.there) >= run.filecount && run.there.len()
                    >= run.filecount
                &&& complete && run.there.len() == run.filecount ==> forall|i: int|
                    0 <= i < run.there.len() ==> #[trigger] run.there[i]
                &&& running ==> (complete <==> run.complete())
                &&& !complete ==> {
                    ||| !running
                    ||| run.failed >= 2 * run.filecount
                    ||| after.retry >= MAX_RETRIES
                }
            }
            &&& step matches GalleryStep::File { index, retry } ==> {
                &&& running
                &&& !low_space
                &&& index == after.index
                &&& index < run.there.len()
                &&& 1 <= retry <= MAX_RETRIES
            }
            &&& step is Pause ==> running && low_space
        }),
    decreases MAX_RETRIES - run.retry,
{
    lemma_count_there(run.there);
    if run.index == 0 && (run.retry >= MAX_RETRIES || run.failed >= 2 * run.filecount) {
    } else if run.index < run.there.len() {
    } else if run.complete() {
    } else if run.retry < MAX_RETRIES {
        law_gallery_ends(
            RunView { retry: (run.retry + 1) as i32, index: 0, ..run },
            running,
            low_space,
        );
    }
}

/// Which files are there once they have had their turns, each with the number of its
/// file and whether it brought the file: none of so many before the first.
pub open spec fn there_after(files: nat, turns: Seq<(int, bool)>) -> Seq<bool>
    decreases turns.len(),
{
    if turns.len() == 0 {
        Seq::new(files, |i: int| false)
    } else {
        there_after(files, turns.drop_last()).update(turns.last().0, turns.last().1)
    }
}

/// The last turn of this file, if it had one, brought it.
pub open spec fn last_turn_brought(turns: Seq<(int, bool)>, file: int) -> bool
    decreases turns.len(),
{
    if turns.len() == 0 {
        false
    } else if turns.last().0 == file {
        turns.last().1
    } else {
        last_turn_brought(turns.drop_last(), file)
    }
}

/// A file counts as there where its last turn brought it, and not for the turns of
/// other files, nor twice for its own; and dealing with the next file of a gallery is
/// a turn of that file.
pub proof fn law_each_file_counts_for_itself(
    files: nat,
    turns: Seq<(int, bool)>,
    run: RunView,
    result: DownloadResult,
)
    requires
        forall|j: int| 0 <= j < turns.len() ==> 0 <= (#[trigger] turns[j]).0 < files,
    ensures
        there_after(files, turns).len() == files,
        forall|i: int|
            0 <= i < files ==> #[trigger] there_after(files, turns)[i] == last_turn_brought(
                turns,
                i,
            ),
        run.there == there_after(files, turns) ==> run.counted(result).there == there_after(
            files,
            turns.push((run.index, !(result is Failed))),
        ),
    decreases turns.len(),
{
    assert(turns.push((run.index, !(result is Failed))).drop_last() =~= turns);
    if turns.len() > 0 {
        let rest = turns.drop_last();
        assert forall|j: int| 0 <= j < rest.len() implies 0 <= (#[trigger] rest[j]).0 < files by {
            assert(rest[j] == turns[j]);
        }
        law_each_file_counts_for_itself(files, rest, run, result);
        assert(turns.last() == turns[turns.len() - 1]);
        assert forall|i: int| 0 <= i < files implies #[trigger] there_after(files, turns)[i]
            == last_turn_brought(turns, i) by {
            if turns.last().0 != i {
                assert(there_after(files, turns)[i] == there_after(files, rest)[i]);
            }
        }
    }
}

/// The turns that the files of a gallery have had.
pub open spec fn turns_taken(run: RunView) -> int {
    run.retry * run.there.len() + run.index
}

/// No file has more than ten turns: looking for the next file takes none, every file
/// that is dealt with or left is one, and there is no next file once each has had ten.
pub proof fn law_downloads_are_bounded(
    run: RunView,
    running: bool,
    low_space: bool,
    result: DownloadResult,
)
    requires
        run.wf(),
    ensures
        ({
            let (after, step) = walk(run, running, low_space);
            &&& step is Done ==> turns_taken(after) == turns_taken(run)
            &&& step is Pause ==> turns_taken(after) == turns_taken(run) + 1
            &&& step is File ==> turns_taken(after) == turns_taken(run) && turns_taken(
                after.counted(result),
            ) == turns_taken(run) + 1
            &&& !(step is Done) ==> turns_taken(run) < MAX_RETRIES * run.there.len()
        }),
    decreases MAX_RETRIES - run.retry,
{
    if run.index == 0 && (run.retry >= MAX_RETRIES || run.failed >= 2 * run.filecount) {
    } else if run.index < run.there.len() {
        let (retry, files) = (run.retry as int, run.there.len() as int);
        assert(retry * files <= 9 * files) by (nonlinear_arith)
            requires
                retry <= 9,
                files >= 0,
        ;
    } else if run.complete() {
    } else if run.retry < MAX_RETRIES {
        let further = RunView { retry: (run.retry + 1) as i32, index: 0, ..run };
        let (retry, files) = (run.retry as int, run.there.len() as int);
        assert((retry + 1) * files == retry * files + files) by (nonlinear_arith);
        law_downloads_are_bounded(further, running, low_space, result);
    }
}

// ---------------------------------------------------------------------------
// Working through the queue
// ---------------------------------------------------------------------------

/// The queue that is being worked through.
pub struct QueueRun {
    /// The gallery, and its resolution, to mark as complete with the next request.
    pub mark_previous: Option<(i32, String)>,
    /// What there is to report of failed downloads.
    pub failures: Vec<String>,
}

/// What to do next for the queue.
pub enum QueueStep {
    /// Report the failures, where there are any, and ask for the next gallery.
    Fetch { failures: Vec<String>, mark: Option<(i32, String)> },
    /// Leave the queue.
    Stop,
}

/// What to do with the answer to a request for the next gallery.
pub enum QueueReply {
    /// Download this gallery.
    Download(GalleryMeta),
    /// There is none: leave the queue.
    Empty,
    /// Ask again after this many seconds.
    RetryAfter(u64),
}

pub open spec fn mark_view(mark: Option<(i32, String)>) -> Option<(i32, Seq<char>)> {
    match mark {
        Some((gid, minxres)) => Some((gid, minxres@)),
        None => None,
    }
}

impl QueueRun {
    pub fn new() -> (r: Self)
        ensures
            r.mark_previous is None,
            r.failures@.len() == 0,
    {
        QueueRun { mark_previous: None, failures: Vec::new() }
    }

    /// What is next; `shutdown` where the client is shutting down.
    pub fn next(&mut self, downloader: &HathDownloader, shutdown: bool) -> (step: QueueStep)
        ensures
            final(self).mark_previous == old(self).mark_previous,
            match step {
                QueueStep::Stop => {
                    &&& !downloader.running || !downloader.downloads_available || shutdown
                    &&& final(self).failures == old(self).failures
                },
                QueueStep::Fetch { failures, mark } => {
                    &&& downloader.running && downloader.downloads_available && !shutdown
                    &&& failures == old(self).failures
                    &&& final(self).failures@.len() == 0
                    &&& mark_view(mark) == mark_view(old(self).mark_previous)
                },
            },
    {
        if !downloader.running || !downloader.downloads_available || shutdown {
            return QueueStep::Stop;
        }
        let mut failures: Vec<String> = Vec::new();
        std::mem::swap(&mut failures, &mut self.failures);
        let mark = match &self.mark_previous {
            Some((gid, minxres)) => Some((*gid, minxres.clone())),
            None => None,
        };
        QueueStep::Fetch { failures, mark }
    }

    /// The server has answered.
    pub fn reply(
        &self,
        downloader: &mut HathDownloader,
        answer: Result<Option<GalleryMeta>, ApiError>,
    ) -> (r: QueueReply)
        ensures
            match answer {
                Ok(Some(gallery)) => {
                    &&& r == QueueReply::Download(gallery)
                    &&& *final(downloader) == *old(downloader)
                },
                Ok(None) => {
                    &&& r is Empty
                    &&& *final(downloader) == (HathDownloader {
                        downloads_available: false,
                        ..*old(downloader)
                    })
                },
                Err(_) => {
                    &&& r == QueueReply::RetryAfter(QUEUE_RETRY_DELAY)
                    &&& *final(downloader) == *old(downloader)
                },
            },
    {
        match answer {
            Ok(Some(gallery)) => QueueReply::Download(gallery),
            Ok(None) => {
                downloader.downloads_available = false;
                QueueReply::Empty
            },
            Err(_) => QueueReply::RetryAfter(QUEUE_RETRY_DELAY),
        }
    }

    /// A gallery is done with, complete or not: it is marked with the next request.
    pub fn gallery_done(&mut self, gallery: &GalleryMeta)
        ensures
            mark_view(final(self).mark_previous) == Some((gallery.gid, gallery.minxres@)),
            final(self).failures == old(self).failures,
    {
        self.mark_previous = Some((gallery.gid, gallery.minxres.clone()));
    }

    /// The queue is left: the failures that are still to be reported.
    pub fn finish(self, downloader: &mut HathDownloader) -> (failures: Vec<String>)
        ensures
            failures == self.failures,
            *final(downloader) == (HathDownloader { running: false, ..*old(downloader) }),
    {
        downloader.running = false;
        self.failures
    }
}

/// The name of a gallery's directory is never longer than 125 bytes.
pub proof fn law_directory_names_are_short(meta: api::MetaView)
    requires
        can_name_directory(meta),
    ensures
        text::byte_len(directory_name(meta)) <= 125,
{
    let room = title_room(meta.gid, meta.minxres);
    let postfix = directory_postfix(meta.gid, meta.minxres);
    if text::byte_len(meta.title) > room {
        let prefix = text::byte_prefix(meta.title, room as nat)->0;
        text::lemma_byte_prefix_len(meta.title, room as nat);
        reveal_strlit("...");
        text::lemma_ascii_prefix("..."@, 0);
        text::lemma_byte_len_concat(prefix, "..."@);
        text::lemma_byte_len_concat(prefix + "..."@, postfix);
    } else {
        text::lemma_byte_len_concat(meta.title, postfix);
    }
}

// ---------------------------------------------------------------------------
// Laws
// ---------------------------------------------------------------------------

/// The directory of a gallery has its title, its number and, unless it is the original
/// one, its resolution in its name; a title that leaves less than the room of 125 bytes
/// is cut, and three dots say so.
pub proof fn law_directories_are_named(
    downloader: HathDownloader,
    gallery: GalleryMeta,
    name: String,
    can: bool,
    postfix: Seq<char>,
    front: Seq<char>,
    rest: Seq<char>,
)
    requires
        call_ensures(HathDownloader::create_gallery_dir, (&downloader, &gallery), name),
        call_ensures(HathDownloader::has_gallery_dir, (&downloader, &gallery), can),
        gallery.minxres@ == "org"@ ==> postfix == " ["@ + text::decimal_int(gallery.gid as int)
            + "]"@,
        gallery.minxres@ != "org"@ ==> postfix == " ["@ + text::decimal_int(gallery.gid as int)
            + "-"@ + gallery.minxres@ + "x]"@,
    ensures
        text::byte_len(gallery.title@) + text::byte_len(postfix) <= 122 ==> can && name@
            == gallery.title@ + postfix,
        gallery.title@ == front + rest && text::byte_len(front) + text::byte_len(postfix) == 122
            && rest.len() > 0 ==> can && name@ == front + "..."@ + postfix,
        text::byte_len(postfix) > 122 ==> !can,
{
    reveal_strlit("");
    reveal_strlit("x]");
    reveal_strlit("x");
    reveal_strlit("]");
    let number = " ["@ + text::decimal_int(gallery.gid as int);
    assert(number + ""@ + "]"@ =~= number + "]"@);
    assert("x]"@ =~= "x"@ + "]"@);
    assert(number + ("-"@ + gallery.minxres@ + "x"@) + "]"@ =~= number + "-"@ + gallery.minxres@
        + "x]"@);
    assert(postfix =~= directory_postfix(gallery.gid, gallery.minxres@));
    if gallery.title@ == front + rest && text::byte_len(front) + text::byte_len(postfix) == 122
        && rest.len() > 0 {
        let room = 122 - text::byte_len(postfix);
        assert(gallery.title@.take(front.len() as int) =~= front);
        text::lemma_byte_len(front);
        text::law_bytes_are_utf8(gallery.title@, room as nat, front.len() as int);
        text::lemma_byte_len_concat(front, rest);
        assert(text::byte_len(rest) > 0) by {
            assert(rest =~= rest.drop_last().push(rest.last()));
        }
    }
}

/// The information file names the gallery, and ends with what the server told of it; a
/// file has its type behind its name.
pub proof fn law_galleries_are_described(
    downloader: HathDownloader,
    gallery: GalleryMeta,
    written: String,
    file: GalleryFileMeta,
    name: String,
)
    requires
        call_ensures(HathDownloader::write_gallery_info, (&downloader, &gallery), written),
        call_ensures(HathDownloader::file_name, (&downloader, &file), name),
    ensures
        written@ == "Title: "@ + gallery.title@ + "\nGID: "@ + text::decimal_int(
            gallery.gid as int,
        ) + "\nFiles: "@ + text::decimal_int(gallery.filecount as int) + "\nResolution: "@
            + gallery.minxres@ + "\n\n"@ + gallery.information@,
        name@ == file.filename@ + "."@ + file.filetype@,
{
}

/// A download request carries the client's number and the SHA-1 hash, in hexadecimal, of
/// its whole key and what is asked for: the gallery, the page, the index and the
/// resolution.
pub proof fn law_downloads_are_signed(
    downloader: HathDownloader,
    gid: i32,
    file: GalleryFileMeta,
    header: String,
    data: &str,
    hash: String,
)
    requires
        call_ensures(HathDownloader::download_header, (&downloader, gid, &file), header),
        call_ensures(HathDownloader::generate_hath_request_header, (&downloader, data), hash),
    ensures
        hash@ == digest::hex_of(
            digest::sha1_of(encode_utf8(downloader.config.client_key@ + data@)),
        ),
        data@ == text::decimal_int(gid as int) + "-"@ + text::decimal_int(file.page as int) + "-"@
            + text::decimal_int(file.fileindex as int) + "-"@ + file.xres@ ==> header@
            == downloader.config.client_id@ + "-"@ + hash@,
{
}

/// A failure is reported with the host, the index and the resolution, where there is a
/// host.
pub proof fn law_failures_are_reported(
    downloader: HathDownloader,
    host: Option<String>,
    file: GalleryFileMeta,
    report: Option<String>,
    url: &str,
    info: Option<String>,
)
    requires
        call_ensures(failure_report, (host, &file), report),
        call_ensures(HathDownloader::extract_failure_info, (&downloader, url, &file), info),
    ensures
        host is None ==> report is None,
        host is Some ==> report is Some && report->0@ == host->0@ + "-"@ + text::decimal_int(
            file.fileindex as int,
        ) + "-"@ + file.xres@,
        web::host_of_url(url@) is None ==> info is None,
        web::host_of_url(url@) matches Some(h) ==> info is Some && info->0@ == h + "-"@
            + text::decimal_int(file.fileindex as int) + "-"@ + file.xres@,
{
}

/// Data are those of a file where their SHA-1 hash, in hexadecimal, is the one that is
/// known of it, in either case of its letters; of a file without a known hash any data
/// are. A file that is there is kept where its data are its own, or, without a known hash,
/// where it is not empty.
pub proof fn law_files_are_verified(
    downloader: HathDownloader,
    file: GalleryFileMeta,
    data: &[u8],
    expected: &str,
    same: bool,
    url: &str,
    failure: Option<DownloadResult>,
    info: Option<String>,
    there: Option<&[u8]>,
    length: u64,
    kept: bool,
)
    requires
        call_ensures(HathDownloader::verify_file_hash, (&downloader, data, expected), same),
        call_ensures(
            HathDownloader::download_gallery_file,
            (&downloader, &file, url, data),
            failure,
        ),
        call_ensures(HathDownloader::extract_failure_info, (&downloader, url, &file), info),
        call_ensures(HathDownloader::keeps_existing, (&downloader, &file, there, length), kept),
        file.sha1hash is Some ==> file.sha1hash->0@ == expected@,
    ensures
        same <==> text::same_ignoring_case(
            digest::hex_of(digest::sha1_of(data@)),
            expected@,
        ),
        file.sha1hash is None ==> failure is None,
        file.sha1hash is Some ==> (failure is None <==> same),
        failure matches Some(result) ==> result is Failed && web::optional_text(result->Failed_0)
            == web::optional_text(info),
        file.sha1hash is None ==> (kept <==> length > 0),
        file.sha1hash is Some && there is None ==> !kept,
        file.sha1hash is Some && there is Some && there->0@ == data@ ==> (kept <==> same),
{
}

/// A downloaded file is cached under its known hash, or else under that of its data, where
/// that lies in an assigned range.
pub proof fn law_static_files_are_cached(
    downloader: HathDownloader,
    client: HahApiClient,
    file: GalleryFileMeta,
    bytes: &[u8],
    under: Option<String>,
    hash: &str,
    assigned: bool,
)
    requires
        call_ensures(HathDownloader::cache_hash, (&downloader, &client, &file, bytes), under),
        call_ensures(HahApiClient::is_in_static_range, (&client, hash), assigned),
        file.sha1hash is Some ==> hash@ == file.sha1hash->0@,
        file.sha1hash is None ==> hash@ == digest::hex_of(digest::sha1_of(bytes@)),
    ensures
        under is Some <==> assigned,
        under is Some ==> under->0@ == hash@,
{
}

/// Space is low below the configured minimum and a gigabyte. The free space is the fourth
/// word of the second line of a report, in blocks of 1024 bytes.
pub proof fn law_space_is_watched(
    downloader: HathDownloader,
    free: u64,
    low: bool,
    report: &str,
    space: Option<u64>,
    words: Seq<Seq<char>>,
)
    requires
        call_ensures(HathDownloader::is_low_disk_space, (&downloader, free), low),
        call_ensures(free_space, (report,), space),
        text::lines(report@).len() >= 2 ==> words == text::words(text::lines(report@)[1]),
        text::lines(report@).len() < 2 ==> words.len() == 0,
    ensures
        low <==> free < downloader.config.min_free_space_bytes + 1_073_741_824,
        words.len() < 4 ==> space is None,
        words.len() >= 4 && text::parsed_unsigned(words[3], 0xffff_ffff_ffff_ffff) is None
            ==> space is None,
        words.len() >= 4 ==> (text::parsed_unsigned(words[3], 0xffff_ffff_ffff_ffff) matches Some(
            blocks,
        ) ==> {
            &&& space is Some <==> blocks * 1024 <= 0xffff_ffff_ffff_ffff
            &&& space is Some ==> space->0 == blocks * 1024
        }),
{
}

/// The download of a file begins with what is there: a file that is good is kept; any
/// other is asked for anew, and one that fails its hash is removed first.
pub proof fn law_downloads_begin(
    run: &mut FileRun,
    downloader: HathDownloader,
    file: GalleryFileMeta,
    existing: Option<ExistingFile>,
    action: FileAction,
    there: Option<&[u8]>,
    length: u64,
    kept: bool,
    gid: i32,
    fresh: FileRun,
)
    requires
        call_ensures(FileRun::start, (run, &downloader, &file, existing), action),
        existing is Some ==> existing->0.data == there && existing->0.length == length,
        call_ensures(HathDownloader::keeps_existing, (&downloader, &file, there, length), kept),
        call_ensures(FileRun::new, (gid,), fresh),
    ensures
        existing is None ==> action == (FileAction::AskAddress { remove: false }),
        existing is Some && kept ==> action == (FileAction::Done {
            result: DownloadResult::AlreadyExists,
            remove: false,
        }) && final(run).stage == FileStage::Over,
        existing is Some && !kept ==> action == (FileAction::AskAddress {
            remove: file.sha1hash is Some,
        }),
        existing is None || !kept ==> final(run).stage == FileStage::Address,
        final(run).gid == old(run).gid && final(run).url == old(run).url,
        fresh.gid == gid && fresh.stage == FileStage::Queued && fresh.url@.len() == 0,
{
}

/// With an address the file is fetched from there, with the header for it; without one the
/// download has failed. Data that are the file's are written, and any other, or none, are
/// a failure that is reported. What was written counts, and is cached where it belongs to
/// a range; what could not be written whole is removed.
pub proof fn law_downloads_go_on(
    run: &mut FileRun,
    other: &mut FileRun,
    third: &mut FileRun,
    downloader: &mut HathDownloader,
    client: HahApiClient,
    file: GalleryFileMeta,
    answer: Result<Option<String>, ApiError>,
    action: FileAction,
    header: String,
    bytes: Option<&[u8]>,
    data: &[u8],
    url: &str,
    arrived: FileAction,
    failure: Option<DownloadResult>,
    outcome: WriteOutcome,
    done: FileAction,
    under: Option<String>,
    info: Option<String>,
)
    requires
        call_ensures(
            FileRun::address_arrived,
            (run, &*old(downloader), &file, answer),
            action,
        ),
        call_ensures(
            HathDownloader::download_header,
            (&*old(downloader), old(run).gid, &file),
            header,
        ),
        call_ensures(FileRun::data_arrived, (other, &*old(downloader), &file, bytes), arrived),
        old(other).url@ == url@,
        bytes is Some ==> bytes->0@ == data@,
        call_ensures(
            HathDownloader::download_gallery_file,
            (&*old(downloader), &file, url, data),
            failure,
        ),
        call_ensures(
            HathDownloader::extract_failure_info,
            (&*old(downloader), url, &file),
            info,
        ),
        call_ensures(FileRun::written, (third, downloader, &client, &file, data, outcome), done),
        call_ensures(
            HathDownloader::cache_hash,
            (&*old(downloader), &client, &file, data),
            under,
        ),
    ensures
        answer is Ok && answer->Ok_0 is Some ==> {
            &&& action is Fetch && action->url@ == answer->Ok_0->0@ && action->header@ == header@
            &&& final(run).stage == FileStage::Data && final(run).url@ == answer->Ok_0->0@
        },
        answer is Err || answer->Ok_0 is None ==> {
            &&& action is Done && action->result == DownloadResult::Failed(None)
            &&& !action->Done_remove && final(run).stage == FileStage::Over
        },
        bytes is Some && failure is None ==> arrived is Write && final(other).stage
            == FileStage::Writing,
        bytes is None || failure is Some ==> {
            &&& arrived is Done && !arrived->Done_remove && arrived->result is Failed
            &&& web::optional_text(arrived->result->Failed_0) == web::optional_text(info)
            &&& final(other).stage == FileStage::Over
        },
        outcome == WriteOutcome::NotCreated ==> done == (FileAction::Done {
            result: DownloadResult::Failed(None),
            remove: false,
        }) && *final(downloader) == *old(downloader),
        outcome == WriteOutcome::Interrupted ==> done == (FileAction::Done {
            result: DownloadResult::Failed(None),
            remove: true,
        }) && *final(downloader) == *old(downloader),
        outcome == WriteOutcome::Complete ==> *final(downloader) == (HathDownloader {
            bytes_downloaded: old(downloader).bytes_downloaded.wrapping_add(data@.len() as u64),
            ..*old(downloader)
        }),
        outcome == WriteOutcome::Complete && under is Some ==> done is Cache && done->hash@
            == under->0@ && final(third).stage == FileStage::Caching,
        outcome == WriteOutcome::Complete && under is None ==> done == (FileAction::Done {
            result: DownloadResult::Success,
            remove: false,
        }) && final(third).stage == FileStage::Over,
{
}

/// The files that are there are counted, each once.
pub proof fn law_files_there_are_counted(there: Seq<bool>, run: GalleryRun, complete: bool)
    requires
        call_ensures(GalleryRun::is_complete, (&run,), complete),
    ensures
        count_there(there) == there.filter(|b: bool| b).len(),
        complete <==> run.there@.filter(|b: bool| b).len() >= run.filecount,
{
    lemma_counted(there);
    lemma_counted(run.there@);
}

proof fn lemma_counted(there: Seq<bool>)
    ensures
        count_there(there) == there.filter(|b: bool| b).len(),
    decreases there.len(),
{
    reveal(Seq::filter);
    if there.len() > 0 {
        lemma_counted(there.drop_last());
    }
}

/// The walk through a gallery: the file that is next is downloaded, with the number of the
/// round; while space is low it is left for the next round, and five minutes are waited;
/// and once the downloader is stopped the gallery is left, not complete. At the end of a
/// round in which as many files are there as the gallery is said to have, it is complete;
/// else there is another round, unless that would be the eleventh, or twice as many
/// downloads have failed as it has files, or none are listed.
pub proof fn law_galleries_are_walked(
    run: &mut GalleryRun,
    running: bool,
    low: bool,
    step: GalleryStep,
    complete: bool,
)
    requires
        call_ensures(GalleryRun::next, (run, running, low), step),
        call_ensures(GalleryRun::is_complete, (&*old(run),), complete),
        old(run).wf(),
    ensures
        ({
            let count = old(run).there@.len();
            let spent = old(run).failed >= 2 * old(run).filecount;
            let over = old(run).index == 0 && (old(run).retry >= 10 || spent);
            let next = old(run).index >= count && !over && !complete;
            let (retry, index) = if next {
                (old(run).retry + 1, 0int)
            } else {
                (old(run).retry as int, old(run).index as int)
            };
            &&& over ==> step == GalleryStep::Done(complete)
            &&& !over && old(run).index >= count && complete ==> step == GalleryStep::Done(true)
            &&& next && (count == 0 || retry >= 10 || spent) ==> step == GalleryStep::Done(false)
            &&& !over && index < count && (!next || retry < 10 && !spent) ==> {
                &&& !running ==> step == GalleryStep::Done(false)
                &&& running && low ==> step == (GalleryStep::Pause { seconds: 300 })
                    && final(run).index == index + 1 && final(run).retry == retry
                &&& running && !low ==> step == (GalleryStep::File {
                    index: index as usize,
                    retry: (retry + 1) as i32,
                }) && final(run).index == index && final(run).retry == retry
            }
        }),
        final(run).there@ == old(run).there@ && final(run).failed == old(run).failed,
        final(run).filecount == old(run).filecount,
{
    reveal_with_fuel(walk, 3);
    if old(run).index >= old(run).there@.len() && !complete && old(run).retry < 10 && (
    old(run).there@.len() == 0 || old(run).retry + 1 >= 10 || old(run).failed >= 2
        * old(run).filecount) {
        lemma_fruitless(
            RunView { retry: (old(run).retry + 1) as i32, index: 0, ..old(run)@ },
            running,
            low,
        );
    }
    law_gallery_ends(old(run)@, running, low);
}

proof fn lemma_fruitless(run: RunView, running: bool, low: bool)
    requires
        run.wf(),
        run.index == 0,
        !run.complete(),
        run.there.len() == 0 || run.retry >= 10 || run.failed >= 2 * run.filecount,
    ensures
        walk(run, running, low).1 == GalleryStep::Done(false),
    decreases MAX_RETRIES - run.retry,
{
    if run.retry < 10 && run.failed < 2 * run.filecount {
        lemma_fruitless(RunView { retry: (run.retry + 1) as i32, ..run }, running, low);
    }
}

/// What came of a file: it is there where its download did not fail; a failure is counted,
/// and noted where it is not yet; and the next file waits a second after a download, five
/// after a failure, and not at all after a file that was there.
pub proof fn law_results_are_recorded(
    run: &mut GalleryRun,
    result: DownloadResult,
    downloader: &mut HathDownloader,
    failures: &mut Vec<String>,
    wait: u64,
    i: int,
    gallery: GalleryMeta,
    fresh: GalleryRun,
)
    requires
        call_ensures(GalleryRun::record, (run, result, downloader, failures), wait),
        call_ensures(GalleryRun::new, (&gallery,), fresh),
    ensures
        final(run).index == old(run).index + 1,
        final(run).there@ == old(run).there@.update(old(run).index as int, !(result is Failed)),
        result is Failed && old(run).failed < 0x7fff_ffff ==> final(run).failed == old(run).failed
            + 1,
        !(result is Failed) ==> final(run).failed == old(run).failed,
        final(run).retry == old(run).retry && final(run).filecount == old(run).filecount,
        result is Success ==> wait == 1 && final(downloader).files_downloaded
            == old(downloader).files_downloaded.wrapping_add(1),
        result is AlreadyExists ==> wait == 0 && *final(downloader) == *old(downloader),
        result is Failed ==> wait == 5 && *final(downloader) == *old(downloader),
        result matches DownloadResult::Failed(Some(info)) ==> (if text::texts(
            old(failures)@,
        ).contains(info@) {
            text::texts(final(failures)@) == text::texts(old(failures)@)
        } else {
            text::texts(final(failures)@) == text::texts(old(failures)@).push(info@)
        }),
        !(result is Failed) || result->Failed_0 is None ==> text::texts(final(failures)@)
            == text::texts(old(failures)@),
        fresh.filecount == gallery.filecount && fresh.retry == 0 && fresh.index == 0,
        fresh.failed == 0 && fresh.there@.len() == gallery.files@.len(),
        0 <= i < fresh.there@.len() ==> !fresh.there@[i],
{
}

/// The queue is asked for the next gallery while the downloader runs and there may be more;
/// with the request go the failures, which are then forgotten, and the gallery that is
/// done with. After an error it is asked again in a minute, and once it is empty it is
/// left.
pub proof fn law_queue_is_worked_through(
    run: &mut QueueRun,
    other: &mut QueueRun,
    downloader: HathDownloader,
    shutdown: bool,
    step: QueueStep,
    answered: &mut HathDownloader,
    answer: Result<Option<GalleryMeta>, ApiError>,
    reply: QueueReply,
    gallery: GalleryMeta,
    last: QueueRun,
    left: &mut HathDownloader,
    failures: Vec<String>,
    fresh: QueueRun,
)
    requires
        call_ensures(QueueRun::next, (run, &downloader, shutdown), step),
        call_ensures(QueueRun::reply, (&last, answered, answer), reply),
        call_ensures(QueueRun::gallery_done, (other, &gallery), ()),
        call_ensures(QueueRun::finish, (last, left), failures),
        call_ensures(QueueRun::new, (), fresh),
    ensures
        step is Fetch <==> downloader.running && downloader.downloads_available && !shutdown,
        step matches QueueStep::Fetch { failures: told, mark } ==> {
            &&& told@ == old(run).failures@ && final(run).failures@.len() == 0
            &&& mark is Some <==> old(run).mark_previous is Some
            &&& mark is Some ==> (mark->0).0 == (old(run).mark_previous->0).0 && (mark->0).1@ == (
            old(run).mark_previous->0).1@
        },
        step is Stop ==> final(run).failures == old(run).failures,
        final(run).mark_previous == old(run).mark_previous,
        answer is Err ==> reply == QueueReply::RetryAfter(60) && *final(answered) == *old(answered),
        answer is Ok && answer->Ok_0 is None ==> reply is Empty && *final(answered) == (
        HathDownloader { downloads_available: false, ..*old(answered) }),
        answer is Ok && answer->Ok_0 is Some ==> reply == QueueReply::Download(answer->Ok_0->0)
            && *final(answered) == *old(answered),
        final(other).mark_previous is Some && (final(other).mark_previous->0).0 == gallery.gid && (
        final(other).mark_previous->0).1@ == gallery.minxres@,
        final(other).failures == old(other).failures,
        failures == last.failures && *final(left) == (HathDownloader {
            running: false,
            ..*old(left)
        }),
        fresh.mark_previous is None && fresh.failures@.len() == 0,
{
}

/// Starting, stopping and counting, and the version that servers are told.
pub proof fn law_downloader_runs(
    downloader: &mut HathDownloader,
    config: Config,
    directory: String,
    fresh: HathDownloader,
    stats: (u64, u64),
    running: bool,
    n: u64,
)
    requires
        call_ensures(HathDownloader::new, (config, directory), fresh),
        call_ensures(HathDownloader::get_stats, (&*old(downloader),), stats),
        call_ensures(HathDownloader::is_running, (&*old(downloader),), running),
    ensures
        CLIENT_VERSION@ == "1.6.4"@,
        fresh.config == config && fresh.download_dir == directory && !fresh.running,
        fresh.downloads_available && fresh.files_downloaded == 0 && fresh.bytes_downloaded == 0,
        stats == (old(downloader).files_downloaded, old(downloader).bytes_downloaded),
        running == old(downloader).running,
        call_ensures(HathDownloader::start, (downloader,), ()) ==> final(downloader).running
            && final(downloader).downloads_available,
        call_ensures(HathDownloader::stop, (downloader,), ()) ==> *final(downloader) == (
        HathDownloader { running: false, ..*old(downloader) }),
        call_ensures(HathDownloader::file_written, (downloader, n), ()) ==> *final(downloader) == (
        HathDownloader {
            bytes_downloaded: old(downloader).bytes_downloaded.wrapping_add(n),
            ..*old(downloader)
        }),
{
}

/// A file that was to be cached is there in any case: the download is a success.
pub proof fn law_caching_ends_a_download(run: &mut FileRun, action: FileAction)
    requires
        call_ensures(FileRun::cached, (run,), action),
    ensures
        action == (FileAction::Done { result: DownloadResult::Success, remove: false }),
        final(run).stage == FileStage::Over,
        final(run).gid == old(run).gid && final(run).url == old(run).url,
{
}

}
