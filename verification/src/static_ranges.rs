//! Static ranges: the portions of the image hash space that this client caches
//! and serves, and the files that it downloads for them.

use crate::api;
use crate::api::ApiError;
use crate::api::ServerSettings;
use crate::cache::CacheError;
use crate::cache::CacheManager;
use crate::config::Config;
use crate::digest;
use crate::text;
use vstd::prelude::*;
use vstd::utf8::is_ascii_chars;

verus! {

#[derive(Debug, Clone)]
pub enum StaticRangeError {
    Network(String),
    Api(String),
    InvalidFormat(String),
    DownloadFailed(String),
}

impl StaticRangeError {
    pub open spec fn message_text(&self) -> Seq<char> {
        match *self {
            StaticRangeError::Network(s) => "Network error: "@ + s@,
            StaticRangeError::Api(s) => "API error: "@ + s@,
            StaticRangeError::InvalidFormat(s) => "Invalid range format: "@ + s@,
            StaticRangeError::DownloadFailed(s) => "Download failed: "@ + s@,
        }
    }

    /// The error in words.
    pub fn message(&self) -> (res: String)
        ensures
            res@ == self.message_text(),
    {
        match self {
            StaticRangeError::Network(s) => "Network error: ".to_string().concat(s.as_str()),
            StaticRangeError::Api(s) => "API error: ".to_string().concat(s.as_str()),
            StaticRangeError::InvalidFormat(s) => "Invalid range format: ".to_string().concat(
                s.as_str(),
            ),
            StaticRangeError::DownloadFailed(s) => "Download failed: ".to_string().concat(
                s.as_str(),
            ),
        }
    }

    pub open spec fn is_api_error(&self, m: Seq<char>) -> bool {
        match *self {
            StaticRangeError::Api(s) => s@ == m,
            _ => false,
        }
    }

    pub open spec fn is_download_failure(&self, m: Seq<char>) -> bool {
        match *self {
            StaticRangeError::DownloadFailed(s) => s@ == m,
            _ => false,
        }
    }
}

/// A static range assignment.
#[derive(Debug)]
pub struct StaticRange {
    /// The range prefix (e.g., "ab", "abc").
    pub prefix: String,
    /// Whether this is a high-capacity range (for larger files).
    pub high_capacity: bool,
    /// Number of files expected in this range.
    pub expected_files: u32,
    /// Priority level (higher = more important).
    pub priority: u8,
}

#[verifier::ext_equal]
pub struct RangeView {
    pub prefix: Seq<char>,
    pub high_capacity: bool,
    pub expected_files: u32,
    pub priority: u8,
}

impl View for StaticRange {
    type V = RangeView;

    open spec fn view(&self) -> RangeView {
        RangeView {
            prefix: self.prefix@,
            high_capacity: self.high_capacity,
            expected_files: self.expected_files,
            priority: self.priority,
        }
    }
}

impl Clone for StaticRange {
    fn clone(&self) -> (r: Self)
        ensures
            r == *self,
    {
        StaticRange {
            prefix: self.prefix.clone(),
            high_capacity: self.high_capacity,
            expected_files: self.expected_files,
            priority: self.priority,
        }
    }
}

/// A file to be downloaded for a static range.
#[derive(Debug)]
pub struct StaticRangeFile {
    pub hash: String,
    pub size: u64,
    pub file_type: String,
    pub url: String,
}

#[verifier::ext_equal]
pub struct RangeFileView {
    pub hash: Seq<char>,
    pub size: u64,
    pub file_type: Seq<char>,
    pub url: Seq<char>,
}

impl View for StaticRangeFile {
    type V = RangeFileView;

    open spec fn view(&self) -> RangeFileView {
        RangeFileView {
            hash: self.hash@,
            size: self.size,
            file_type: self.file_type@,
            url: self.url@,
        }
    }
}

impl Clone for StaticRangeFile {
    fn clone(&self) -> (r: Self)
        ensures
            r == *self,
    {
        StaticRangeFile {
            hash: self.hash.clone(),
            size: self.size,
            file_type: self.file_type.clone(),
            url: self.url.clone(),
        }
    }
}

/// Statistics for static range operations.
#[derive(Debug, Clone, Copy, PartialEq, Eq, Structural)]
pub struct StaticRangeStats {
    pub total_ranges: usize,
    pub total_files: u64,
    pub files_downloaded: u64,
    pub files_pending: u64,
    pub bytes_downloaded: u64,
    pub download_errors: u64,
    pub last_update: i64,
}

impl StaticRangeStats {
    pub open spec fn zero() -> StaticRangeStats {
        StaticRangeStats {
            total_ranges: 0,
            total_files: 0,
            files_downloaded: 0,
            files_pending: 0,
            bytes_downloaded: 0,
            download_errors: 0,
            last_update: 0,
        }
    }
}

impl Default for StaticRangeStats {
    fn default() -> (r: Self)
        ensures
            r == StaticRangeStats::zero(),
    {
        StaticRangeStats {
            total_ranges: 0,
            total_files: 0,
            files_downloaded: 0,
            files_pending: 0,
            bytes_downloaded: 0,
            download_errors: 0,
            last_update: 0,
        }
    }
}

pub open spec fn range_views(ranges: Seq<StaticRange>) -> Seq<RangeView> {
    ranges.map_values(|r: StaticRange| r@)
}

pub open spec fn range_file_views(files: Seq<StaticRangeFile>) -> Seq<RangeFileView> {
    files.map_values(|f: StaticRangeFile| f@)
}

/// A `prefix;priority;hc` line. The priority is 5 where it is not given, and 1
/// for `hc` marks a high-capacity range.
pub open spec fn range_of(line: Seq<char>) -> Option<RangeView> {
    if line.len() == 0 || line[0] == '#' {
        None
    } else {
        let parts = text::split(line, ';');
        Some(
            RangeView {
                prefix: text::lowercase(parts[0]),
                high_capacity: parts.len() > 2 && parts[2] == "1"@,
                expected_files: 0,
                priority: if parts.len() > 1 {
                    api::unsigned_param(Some(parts[1]), u8::MAX as int, 5, 5) as u8
                } else {
                    5
                },
            },
        )
    }
}

/// The ranges of the lines, in order.
pub open spec fn ranges_of(lines: Seq<Seq<char>>) -> Seq<RangeView>
    decreases lines.len(),
{
    if lines.len() == 0 {
        Seq::empty()
    } else {
        match range_of(lines.last()) {
            Some(range) => ranges_of(lines.drop_last()).push(range),
            None => ranges_of(lines.drop_last()),
        }
    }
}

/// A `hash;size;type;url` line; a size that is no number counts as 0.
pub open spec fn download_of(line: Seq<char>) -> Option<RangeFileView> {
    let parts = text::split(line, ';');
    if api::is_list_entry(line) && parts.len() >= 4 {
        Some(
            RangeFileView {
                hash: parts[0],
                size: api::unsigned_param(Some(parts[1]), u64::MAX as int, 0, 0) as u64,
                file_type: parts[2],
                url: parts[3],
            },
        )
    } else {
        None
    }
}

/// The files of the lines, in order.
pub open spec fn downloads_of(lines: Seq<Seq<char>>) -> Seq<RangeFileView>
    decreases lines.len(),
{
    if lines.len() == 0 {
        Seq::empty()
    } else {
        match download_of(lines.last()) {
            Some(file) => downloads_of(lines.drop_last()).push(file),
            None => downloads_of(lines.drop_last()),
        }
    }
}

/// Some range has a prefix that the hash, in lower case, begins with.
pub open spec fn in_some_range(ranges: Set<RangeView>, hash: Seq<char>) -> bool {
    exists|range: RangeView| #[trigger]
        ranges.contains(range) && text::starts_with(text::lowercase(hash), range.prefix)
}

/// The files that are not cached, in order.
pub open spec fn not_cached(files: Seq<RangeFileView>, cached: Set<Seq<char>>) -> Seq<RangeFileView>
    decreases files.len(),
{
    if files.len() == 0 {
        Seq::empty()
    } else if cached.contains(files.last().hash) {
        not_cached(files.drop_last(), cached)
    } else {
        not_cached(files.drop_last(), cached).push(files.last())
    }
}

fn read_range(line: &str) -> (r: Option<StaticRange>)
    ensures
        match r {
            Some(range) => range_of(line@) == Some(range@),
            None => range_of(line@) is None,
        },
{
    if line.is_empty() || text::has_first(line, '#') {
        return None;
    }
    let parts = text::split_text(line, ';');
    let ghost texts = text::texts(parts@);
    proof {
        assert(texts[0] == parts@[0]@);
    }
    let prefix = parts[0].as_str().to_lowercase();
    let mut priority: u8 = 5;
    if parts.len() > 1 {
        proof {
            assert(texts[1] == parts@[1]@);
        }
        if let Some(n) = text::parse_unsigned(parts[1].as_str(), u8::MAX as u64) {
            priority = n as u8;
        }
    }
    let mut high_capacity = false;
    if parts.len() > 2 {
        proof {
            assert(texts[2] == parts@[2]@);
        }
        high_capacity = text::same(parts[2].as_str(), "1");
    }
    Some(StaticRange { prefix, high_capacity, expected_files: 0, priority })
}

fn read_download(line: &str) -> (r: Option<StaticRangeFile>)
    ensures
        match r {
            Some(file) => download_of(line@) == Some(file@),
            None => download_of(line@) is None,
        },
{
    if line.is_empty() || text::has_first(line, '#') || text::same(line, "OK") {
        return None;
    }
    let parts = text::split_text(line, ';');
    if parts.len() < 4 {
        return None;
    }
    proof {
        let texts = text::texts(parts@);
        assert(texts[0] == parts@[0]@);
        assert(texts[1] == parts@[1]@);
        assert(texts[2] == parts@[2]@);
        assert(texts[3] == parts@[3]@);
    }
    let size: u64 = match text::parse_unsigned(parts[1].as_str(), u64::MAX) {
        Some(n) => n,
        None => 0,
    };
    Some(
        StaticRangeFile {
            hash: parts[0].clone(),
            size,
            file_type: parts[2].clone(),
            url: parts[3].clone(),
        },
    )
}

fn is_assigned(ranges: &Vec<StaticRange>, range: &StaticRange) -> (r: bool)
    ensures
        r == range_views(ranges@).contains(range@),
{
    let mut i: usize = 0;
    while i < ranges.len()
        invariant
            i <= ranges.len(),
            forall|j: int| 0 <= j < i ==> (#[trigger] range_views(ranges@)[j]) != range@,
        decreases ranges.len() - i,
    {
        let other = &ranges[i];
        proof {
            assert(range_views(ranges@)[i as int] == other@);
        }
        if text::same(other.prefix.as_str(), range.prefix.as_str()) && other.high_capacity
            == range.high_capacity && other.expected_files == range.expected_files
            && other.priority == range.priority {
            proof {
                assert(range_views(ranges@)[i as int] == range@);
            }
            return true;
        }
        i = i + 1;
    }
    false
}

/// The static ranges of the client.
pub struct StaticRangeManager {
    pub client_id: String,
    /// Currently assigned static ranges, each once.
    pub assigned_ranges: Vec<StaticRange>,
    /// Files pending download for static ranges.
    pub pending_files: Vec<StaticRangeFile>,
    pub stats: StaticRangeStats,
    /// Whether downloads are enabled.
    pub downloads_enabled: bool,
    /// Number of concurrent download workers.
    pub download_workers: usize,
}

impl StaticRangeManager {
    /// No range is assigned twice.
    pub open spec fn wf(&self) -> bool {
        range_views(self.assigned_ranges@).no_duplicates()
    }

    pub open spec fn assigned(&self) -> Set<RangeView> {
        range_views(self.assigned_ranges@).to_set()
    }

    pub fn new(config: &Config) -> (r: Self)
        ensures
            r.wf(),
            r.client_id == config.client_id,
            r.assigned_ranges@.len() == 0,
            r.pending_files@.len() == 0,
            r.stats == StaticRangeStats::zero(),
            r.downloads_enabled,
            r.download_workers == (if config.download_workers >= 1 {
                config.download_workers
            } else {
                1
            }),
    {
        StaticRangeManager {
            client_id: config.client_id.clone(),
            assigned_ranges: Vec::new(),
            pending_files: Vec::new(),
            stats: StaticRangeStats::default(),
            downloads_enabled: true,
            download_workers: if config.download_workers >= 1 {
                config.download_workers
            } else {
                1
            },
        }
    }

    /// Whether there is a server to ask for ranges and files.
    pub fn has_server(settings: &ServerSettings) -> (r: bool)
        ensures
            r == (settings.request_server@.len() > 0),
    {
        !settings.request_server.as_str().is_empty()
    }

    /// Take the static range assignments of the server: the lines of its reply.
    /// Without a server to ask nothing changes.
    pub fn fetch_ranges(
        &mut self,
        settings: &ServerSettings,
        reply: Result<Vec<String>, ApiError>,
        now: i64,
    ) -> (r: Result<Vec<StaticRange>, StaticRangeError>)
        ensures
            settings.request_server@.len() == 0 ==> {
                &&& *final(self) == *old(self)
                &&& r is Ok
                &&& r->Ok_0@.len() == 0
            },
            settings.request_server@.len() > 0 ==> match reply {
                Err(e) => {
                    &&& *final(self) == *old(self)
                    &&& r is Err
                    &&& r->Err_0.is_api_error(e.message_text())
                },
                Ok(lines) => {
                    &&& r is Ok
                    &&& range_views(r->Ok_0@) == ranges_of(text::texts(lines@))
                    &&& final(self).wf()
                    &&& final(self).assigned() == range_views(r->Ok_0@).to_set()
                    &&& *final(self) == (StaticRangeManager {
                        assigned_ranges: final(self).assigned_ranges,
                        stats: StaticRangeStats {
                            total_ranges: r->Ok_0@.len() as usize,
                            last_update: now,
                            ..old(self).stats
                        },
                        ..*old(self)
                    })
                },
            },
    {
        if !Self::has_server(settings) {
            return Ok(Vec::new());
        }
        let lines = match reply {
            Ok(lines) => lines,
            Err(e) => {
                return Err(StaticRangeError::Api(e.message()));
            },
        };
        let ghost sent = text::texts(lines@);
        let mut ranges: Vec<StaticRange> = Vec::new();
        let mut assigned: Vec<StaticRange> = Vec::new();
        let mut i: usize = 0;
        proof {
            assert(range_views(ranges@) =~= ranges_of(sent.take(0)));
            assert(range_views(assigned@).to_set() =~= range_views(ranges@).to_set());
        }
        while i < lines.len()
            invariant
                i <= lines.len(),
                sent == text::texts(lines@),
                range_views(ranges@) == ranges_of(sent.take(i as int)),
                range_views(assigned@).no_duplicates(),
                range_views(assigned@).to_set() == range_views(ranges@).to_set(),
            decreases lines.len() - i,
        {
            let ghost before = range_views(ranges@);
            let ghost known = range_views(assigned@);
            proof {
                assert(sent.take(i + 1).drop_last() =~= sent.take(i as int));
                assert(sent.take(i + 1).last() == lines@[i as int]@);
            }
            if let Some(range) = read_range(lines[i].as_str()) {
                proof {
                    lemma_push_range(before, range@);
                    lemma_push_range(known, range@);
                    if known.contains(range@) {
                        assert(known.to_set().contains(range@));
                        assert(known.to_set().insert(range@) =~= known.to_set());
                    }
                }
                if !is_assigned(&assigned, &range) {
                    assigned.push(range.clone());
                    proof {
                        assert(range_views(assigned@) =~= known.push(range@));
                    }
                }
                ranges.push(range);
                proof {
                    assert(range_views(ranges@) =~= before.push(range@));
                }
            }
            i = i + 1;
        }
        proof {
            assert(sent.take(i as int) =~= sent);
        }
        self.assigned_ranges = assigned;
        self.stats.total_ranges = ranges.len();
        self.stats.last_update = now;
        Ok(ranges)
    }

    /// Check if a file hash belongs to any of the assigned ranges.
    pub fn is_in_assigned_range(&self, hash: &str) -> (r: bool)
        ensures
            r == in_some_range(self.assigned(), hash@),
    {
        let lower = hash.to_lowercase();
        let mut i: usize = 0;
        while i < self.assigned_ranges.len()
            invariant
                i <= self.assigned_ranges.len(),
                lower@ == text::lowercase(hash@),
                forall|j: int|
                    0 <= j < i ==> !text::starts_with(
                        lower@,
                        (#[trigger] range_views(self.assigned_ranges@)[j]).prefix,
                    ),
            decreases self.assigned_ranges.len() - i,
        {
            proof {
                assert(range_views(self.assigned_ranges@)[i as int]
                    == self.assigned_ranges@[i as int]@);
            }
            if text::has_prefix(lower.as_str(), self.assigned_ranges[i].prefix.as_str()) {
                proof {
                    assert(self.assigned().contains(
                        range_views(self.assigned_ranges@)[i as int],
                    ));
                }
                return true;
            }
            i = i + 1;
        }
        false
    }

    /// The URL of the list of files to download, where there is a server to ask.
    pub fn files_request(&self, settings: &ServerSettings) -> (r: Option<String>)
        ensures
            match r {
                None => settings.request_server@.len() == 0,
                Some(url) => {
                    &&& settings.request_server@.len() > 0
                    &&& url@ == settings.request_server@ + "/servercmd?cmd=srfetch&cid="@
                        + self.client_id@
                },
            },
    {
        if !Self::has_server(settings) {
            return None;
        }
        let mut url = settings.request_server.clone();
        url.append("/servercmd?cmd=srfetch&cid=");
        url.append(self.client_id.as_str());
        Some(url)
    }

    /// Take the list of files to download for static ranges.
    pub fn fetch_files_to_download(&mut self, text: &str) -> (files: Vec<StaticRangeFile>)
        ensures
            range_file_views(files@) == downloads_of(text::lines(text@)),
            range_file_views(final(self).pending_files@) == range_file_views(files@),
            *final(self) == (StaticRangeManager {
                pending_files: final(self).pending_files,
                stats: StaticRangeStats { files_pending: files@.len() as u64, ..old(self).stats },
                ..*old(self)
            }),
    {
        let lines = text::lines_of(text);
        let ghost sent = text::texts(lines@);
        let mut files: Vec<StaticRangeFile> = Vec::new();
        let mut pending: Vec<StaticRangeFile> = Vec::new();
        let mut i: usize = 0;
        proof {
            assert(range_file_views(files@) =~= downloads_of(sent.take(0)));
            assert(range_file_views(pending@) =~= range_file_views(files@));
        }
        while i < lines.len()
            invariant
                i <= lines.len(),
                sent == text::texts(lines@),
                range_file_views(files@) == downloads_of(sent.take(i as int)),
                range_file_views(pending@) == range_file_views(files@),
            decreases lines.len() - i,
        {
            let ghost before = range_file_views(files@);
            proof {
                assert(sent.take(i + 1).drop_last() =~= sent.take(i as int));
                assert(sent.take(i + 1).last() == lines@[i as int]@);
            }
            if let Some(file) = read_download(lines[i].as_str()) {
                pending.push(file.clone());
                files.push(file);
                proof {
                    assert(range_file_views(files@) =~= before.push(file@));
                    assert(range_file_views(pending@) =~= before.push(file@));
                }
            }
            i = i + 1;
        }
        proof {
            assert(sent.take(i as int) =~= sent);
        }
        self.pending_files = pending;
        self.stats.files_pending = files.len() as u64;
        files
    }

    /// The files to queue for download: those that are not cached yet.
    pub fn queue_downloads(&self, files: Vec<StaticRangeFile>, cache: &CacheManager) -> (queued: Vec<
        StaticRangeFile,
    >)
        ensures
            range_file_views(queued@) == not_cached(
                range_file_views(files@),
                cache.files().dom(),
            ),
    {
        let ghost all = range_file_views(files@);
        let mut queued: Vec<StaticRangeFile> = Vec::new();
        let mut i: usize = 0;
        proof {
            assert(range_file_views(queued@) =~= not_cached(all.take(0), cache.files().dom()));
        }
        while i < files.len()
            invariant
                i <= files.len(),
                all == range_file_views(files@),
                range_file_views(queued@) == not_cached(all.take(i as int), cache.files().dom()),
            decreases files.len() - i,
        {
            let ghost before = range_file_views(queued@);
            let file = &files[i];
            proof {
                assert(all.take(i + 1).drop_last() =~= all.take(i as int));
                assert(all.take(i + 1).last() == file@);
            }
            if !cache.has_file(file.hash.as_str()) {
                queued.push(file.clone());
                proof {
                    assert(range_file_views(queued@) =~= before.push(file@));
                }
            }
            i = i + 1;
        }
        proof {
            assert(all.take(i as int) =~= all);
        }
        queued
    }

    /// Whether a queued file is downloaded or skipped.
    pub fn starts_download(&self) -> (r: bool)
        ensures
            r == self.downloads_enabled,
    {
        self.downloads_enabled
    }

    /// Check what a download brought: the status of the reply has to be a success,
    /// and the hash of the bytes that of the file.
    pub fn download_file(&self, file: &StaticRangeFile, success: bool, status: &str, bytes: &[u8])
        -> (r: Result<(), StaticRangeError>)
        ensures
            match r {
                Ok(_) => success && digest::sha1_hex(bytes@) == file.hash@,
                Err(e) => if !success {
                    e.is_download_failure("HTTP "@ + status@)
                } else {
                    &&& digest::sha1_hex(bytes@) != file.hash@
                    &&& e.is_download_failure(
                        "Hash mismatch: expected "@ + file.hash@ + ", got "@ + digest::sha1_hex(
                            bytes@,
                        ),
                    )
                },
            },
    {
        if !success {
            return Err(StaticRangeError::DownloadFailed("HTTP ".to_string().concat(status)));
        }
        let actual = digest::sha1_hex_of(bytes);
        if !text::same(actual.as_str(), file.hash.as_str()) {
            let mut message = "Hash mismatch: expected ".to_string();
            message.append(file.hash.as_str());
            message.append(", got ");
            message.append(actual.as_str());
            return Err(StaticRangeError::DownloadFailed(message));
        }
        Ok(())
    }

    /// The error of a download that could not be stored.
    pub fn store_failed(e: &CacheError) -> (r: StaticRangeError)
        ensures
            r.is_download_failure(e.message_text()),
    {
        StaticRangeError::DownloadFailed(e.message())
    }

    /// Count a file that has been downloaded and stored.
    pub fn record_download(&mut self, bytes: u64)
        ensures
            *final(self) == (StaticRangeManager {
                stats: StaticRangeStats {
                    files_downloaded: old(self).stats.files_downloaded.wrapping_add(1),
                    bytes_downloaded: old(self).stats.bytes_downloaded.wrapping_add(bytes),
                    files_pending: if old(self).stats.files_pending > 0 {
                        (old(self).stats.files_pending - 1) as u64
                    } else {
                        0
                    },
                    ..old(self).stats
                },
                ..*old(self)
            }),
    {
        self.stats.files_downloaded = self.stats.files_downloaded.wrapping_add(1);
        self.stats.bytes_downloaded = self.stats.bytes_downloaded.wrapping_add(bytes);
        if self.stats.files_pending > 0 {
            self.stats.files_pending = self.stats.files_pending - 1;
        }
    }

    /// Count a download that failed.
    pub fn record_failure(&mut self)
        ensures
            *final(self) == (StaticRangeManager {
                stats: StaticRangeStats {
                    download_errors: old(self).stats.download_errors.wrapping_add(1),
                    ..old(self).stats
                },
                ..*old(self)
            }),
    {
        self.stats.download_errors = self.stats.download_errors.wrapping_add(1);
    }

    /// Enable or disable static range downloads.
    pub fn set_downloads_enabled(&mut self, enabled: bool)
        ensures
            *final(self) == (StaticRangeManager { downloads_enabled: enabled, ..*old(self) }),
    {
        self.downloads_enabled = enabled;
    }

    /// Get current statistics.
    pub fn get_stats(&self) -> (r: StaticRangeStats)
        ensures
            r == self.stats,
    {
        self.stats
    }

    /// Get assigned ranges.
    pub fn get_assigned_ranges(&self) -> (r: Vec<StaticRange>)
        ensures
            range_views(r@) == range_views(self.assigned_ranges@),
    {
        let r = self.assigned_ranges.clone();
        proof {
            assert(range_views(r@) =~= range_views(self.assigned_ranges@));
        }
        r
    }

    /// Clear all assigned ranges (for shutdown).
    pub fn clear_ranges(&mut self)
        ensures
            final(self).wf(),
            final(self).assigned_ranges@.len() == 0,
            final(self).pending_files@.len() == 0,
            *final(self) == (StaticRangeManager {
                assigned_ranges: final(self).assigned_ranges,
                pending_files: final(self).pending_files,
                ..*old(self)
            }),
    {
        self.assigned_ranges = Vec::new();
        self.pending_files = Vec::new();
    }
}

proof fn lemma_push_range(s: Seq<RangeView>, x: RangeView)
    ensures
        s.push(x).to_set() == s.to_set().insert(x),
{
    assert forall|y: RangeView| s.push(x).to_set().contains(y) == s.to_set().insert(x).contains(
        y,
    ) by {
        if s.contains(y) {
            let j = choose|j: int| 0 <= j < s.len() && s[j] == y;
            assert(s.push(x)[j] == y);
        }
        assert(s.push(x)[s.len() as int] == x);
    }
    assert(s.push(x).to_set() =~= s.to_set().insert(x));
}

/// A hash lies in an assigned range whatever the case of its letters.
pub proof fn law_range_ignores_case(ranges: Set<RangeView>, a: Seq<char>, b: Seq<char>)
    requires
        is_ascii_chars(a),
        is_ascii_chars(b),
        text::same_ignoring_case(a, b),
    ensures
        in_some_range(ranges, a) == in_some_range(ranges, b),
{
    assert(text::lowercase(a) =~= text::lowercase(b));
}

/// Every hash that begins with the prefix of an assigned range, in either case of
/// its letters, lies in an assigned range.
pub proof fn law_prefix_covers_its_hashes(
    lines: Seq<Seq<char>>,
    i: int,
    prefix: Seq<char>,
    hash: Seq<char>,
)
    requires
        0 <= i < lines.len(),
        range_of(lines[i]) is Some,
        prefix == text::split(lines[i], ';')[0],
        is_ascii_chars(prefix),
        is_ascii_chars(hash),
        prefix.len() <= hash.len(),
        text::same_ignoring_case(hash.take(prefix.len() as int), prefix),
    ensures
        in_some_range(ranges_of(lines).to_set(), hash),
{
    let range = range_of(lines[i])->0;
    lemma_range_is_listed(lines, i);
    assert(ranges_of(lines).to_set().contains(range));
    let lower = text::lowercase(hash);
    assert forall|j: int| 0 <= j < prefix.len() implies lower[j] == range.prefix[j] by {
        assert(hash.take(prefix.len() as int)[j] == hash[j]);
    }
    assert(lower.subrange(0, range.prefix.len() as int) =~= range.prefix);
}

proof fn lemma_range_is_listed(lines: Seq<Seq<char>>, i: int)
    requires
        0 <= i < lines.len(),
        range_of(lines[i]) is Some,
    ensures
        ranges_of(lines).contains(range_of(lines[i])->0),
    decreases lines.len(),
{
    let rest = ranges_of(lines.drop_last());
    let all = ranges_of(lines);
    if i == lines.len() - 1 {
        assert(all[all.len() - 1] == range_of(lines[i])->0);
    } else {
        lemma_range_is_listed(lines.drop_last(), i);
        assert(lines.drop_last()[i] == lines[i]);
        let j = choose|j: int| 0 <= j < rest.len() && rest[j] == range_of(lines[i])->0;
        assert(all[j] == rest[j]);
    }
}

/// With an empty prefix, and only with ranges, every hash is in range.
pub proof fn law_empty_prefix_covers_all(ranges: Set<RangeView>, range: RangeView, hash: Seq<char>)
    requires
        ranges.contains(range),
        range.prefix.len() == 0,
    ensures
        in_some_range(ranges, hash),
        !in_some_range(Set::empty(), hash),
{
    assert(text::lowercase(hash).subrange(0, 0) =~= range.prefix);
}

/// After the files have been queued none of them is in the cache, and none that
/// is not is left out.
pub proof fn law_queue_is_what_is_missing(
    files: Seq<RangeFileView>,
    cached: Set<Seq<char>>,
    file: RangeFileView,
)
    ensures
        not_cached(files, cached).contains(file) <==> files.contains(file) && !cached.contains(
            file.hash,
        ),
    decreases files.len(),
{
    if files.len() > 0 {
        let rest = files.drop_last();
        let last = files.last();
        let kept = not_cached(rest, cached);
        law_queue_is_what_is_missing(rest, cached, file);
        if files.contains(file) && file != last {
            let j = choose|j: int| 0 <= j < files.len() && files[j] == file;
            assert(rest[j] == file);
        }
        if rest.contains(file) {
            let j = choose|j: int| 0 <= j < rest.len() && rest[j] == file;
            assert(files[j] == file);
        }
        assert(files[files.len() - 1] == last);
        if !cached.contains(last.hash) {
            let out = kept.push(last);
            if out.contains(file) && file != last {
                let j = choose|j: int| 0 <= j < out.len() && out[j] == file;
                assert(kept[j] == file);
            }
            if kept.contains(file) {
                let j = choose|j: int| 0 <= j < kept.len() && kept[j] == file;
                assert(out[j] == file);
            }
            assert(out[out.len() - 1] == last);
        }
    }
}

/// A range is a prefix, a priority and a mark, between semicolons: the prefix counts in
/// lower case, the priority is 5 where it is no number, and a mark of 1 is one of high
/// capacity. What is empty or a comment is no range.
pub proof fn law_range_entries_are_read(
    prefix: Seq<char>,
    priority: Seq<char>,
    mark: Seq<char>,
    more: Seq<char>,
)
    requires
        prefix.len() > 0,
        prefix[0] != '#',
        !prefix.contains(';'),
        !priority.contains(';'),
        !mark.contains(';'),
    ensures
        ({
            let read = match text::parsed_unsigned(priority, 255) {
                Some(n) => n as u8,
                None => 5u8,
            };
            let plain = RangeView {
                prefix: text::lowercase(prefix),
                high_capacity: false,
                expected_files: 0,
                priority: 5,
            };
            &&& range_of(prefix) == Some(plain)
            &&& range_of(prefix + seq![';'] + priority) == Some(
                RangeView { priority: read, ..plain },
            )
            &&& range_of(prefix + seq![';'] + (priority + seq![';'] + mark)) == Some(
                RangeView { priority: read, high_capacity: mark == "1"@, ..plain },
            )
            &&& range_of(prefix + seq![';'] + (priority + seq![';'] + (mark + seq![';'] + more)))
                == Some(RangeView { priority: read, high_capacity: mark == "1"@, ..plain })
        }),
        range_of(Seq::empty()) is None,
        range_of(seq!['#'] + more) is None,
{
    let third = mark + seq![';'] + more;
    text::law_split(prefix, ';', priority);
    text::law_split(prefix, ';', priority + seq![';'] + mark);
    text::law_split(prefix, ';', priority + seq![';'] + third);
    text::law_split(priority, ';', mark);
    text::law_split(priority, ';', third);
    text::law_split(mark, ';', more);
    text::law_numbers_are_within_limits(priority, 0, 255);
    let two = prefix + seq![';'] + priority;
    let three = prefix + seq![';'] + (priority + seq![';'] + mark);
    let four = prefix + seq![';'] + (priority + seq![';'] + third);
    assert(two[0] == prefix[0] && three[0] == prefix[0] && four[0] == prefix[0]);
    assert(text::split(two, ';') =~= seq![prefix, priority]);
    assert(text::split(three, ';') =~= seq![prefix, priority, mark]);
    let parts = text::split(four, ';');
    assert(parts[0] == prefix && parts[1] == priority && parts[2] == mark && parts.len() > 2);
    assert((seq!['#'] + more)[0] == '#');
}

/// Lists are read line by line, and every line that gives a range or a file gives one, in
/// order.
pub proof fn law_lines_give_ranges_and_files(
    lines: Seq<Seq<char>>,
    line: Seq<char>,
    files: Seq<RangeFileView>,
    file: RangeFileView,
    cached: Set<Seq<char>>,
)
    ensures
        ranges_of(Seq::empty()) == Seq::<RangeView>::empty(),
        range_of(line) is Some ==> ranges_of(lines.push(line)) == ranges_of(lines).push(
            range_of(line)->0,
        ),
        range_of(line) is None ==> ranges_of(lines.push(line)) == ranges_of(lines),
        downloads_of(Seq::empty()) == Seq::<RangeFileView>::empty(),
        download_of(line) is Some ==> downloads_of(lines.push(line)) == downloads_of(lines).push(
            download_of(line)->0,
        ),
        download_of(line) is None ==> downloads_of(lines.push(line)) == downloads_of(lines),
        not_cached(Seq::empty(), cached) == Seq::<RangeFileView>::empty(),
        cached.contains(file.hash) ==> not_cached(files.push(file), cached) == not_cached(
            files,
            cached,
        ),
        !cached.contains(file.hash) ==> not_cached(files.push(file), cached) == not_cached(
            files,
            cached,
        ).push(file),
{
    assert(lines.push(line).drop_last() =~= lines);
    assert(files.push(file).drop_last() =~= files);
}

/// A file to download is a hash, a size, a type and an address between semicolons; what
/// follows is passed over, a size that is no number is 0, and a line of fewer parts, like
/// one that is empty, a comment or `OK`, gives no file.
pub proof fn law_download_entries_are_read(
    hash: Seq<char>,
    size: Seq<char>,
    kind: Seq<char>,
    url: Seq<char>,
    more: Seq<char>,
    line: Seq<char>,
)
    requires
        hash.len() > 0,
        hash[0] != '#',
        !hash.contains(';'),
        !size.contains(';'),
        !kind.contains(';'),
        !url.contains(';'),
    ensures
        ({
            let file = RangeFileView {
                hash,
                size: match text::parsed_unsigned(size, 0xffff_ffff_ffff_ffff) {
                    Some(n) => n as u64,
                    None => 0u64,
                },
                file_type: kind,
                url,
            };
            let front = |rest: Seq<char>|
                hash + seq![';'] + (size + seq![';'] + (kind + seq![';'] + rest));
            &&& download_of(front(url)) == Some(file)
            &&& download_of(front(url + seq![';'] + more)) == Some(file)
            &&& download_of(hash + seq![';'] + (size + seq![';'] + kind)) is None
            &&& download_of(hash + seq![';'] + size) is None
            &&& download_of(hash) is None
        }),
        line.len() == 0 || line[0] == '#' || line == "OK"@ ==> download_of(line) is None,
{
    let last = url + seq![';'] + more;
    text::law_split(hash, ';', size);
    text::law_split(size, ';', kind);
    text::law_split(kind, ';', url);
    text::law_split(kind, ';', last);
    text::law_split(url, ';', more);
    text::law_split(hash, ';', size + seq![';'] + kind);
    text::law_split(size, ';', kind + seq![';'] + url);
    text::law_split(size, ';', kind + seq![';'] + last);
    text::law_split(hash, ';', size + seq![';'] + (kind + seq![';'] + url));
    text::law_split(hash, ';', size + seq![';'] + (kind + seq![';'] + last));
    text::law_numbers_are_within_limits(size, 0, u64::MAX as int);
    reveal_strlit("OK");
    let four = hash + seq![';'] + (size + seq![';'] + (kind + seq![';'] + url));
    let five = hash + seq![';'] + (size + seq![';'] + (kind + seq![';'] + last));
    assert(four[0] == hash[0] && five[0] == hash[0]);
    assert(text::split(four, ';') =~= seq![hash, size, kind, url]);
    let parts = text::split(five, ';');
    assert(parts[0] == hash && parts[1] == size && parts[2] == kind && parts[3] == url);
    assert(text::split(hash + seq![';'] + (size + seq![';'] + kind), ';') =~= seq![
        hash,
        size,
        kind,
    ]);
    assert(text::split(hash + seq![';'] + size, ';') =~= seq![hash, size]);
    if four == "OK"@ {
        assert("OK"@[hash.len() as int] == ';');
    }
    if five == "OK"@ {
        assert("OK"@[hash.len() as int] == ';');
    }
}

/// The ranges of a reply replace those that were assigned, each once; a refusal, and the
/// want of a server, changes nothing.
pub proof fn law_ranges_are_taken(
    manager: &mut StaticRangeManager,
    settings: ServerSettings,
    reply: Result<Vec<String>, ApiError>,
    now: i64,
    answer: Result<Vec<StaticRange>, StaticRangeError>,
    served: bool,
    range: RangeView,
    said: String,
)
    requires
        call_ensures(
            StaticRangeManager::fetch_ranges,
            (manager, &settings, reply, now),
            answer,
        ),
        call_ensures(StaticRangeManager::has_server, (&settings,), served),
        reply is Err ==> call_ensures(ApiError::message, (&reply->Err_0,), said),
    ensures
        served <==> settings.request_server@.len() > 0,
        !served ==> answer is Ok && answer->Ok_0@.len() == 0 && *final(manager) == *old(manager),
        served && reply is Err ==> *final(manager) == *old(manager) && (answer matches Err(
            StaticRangeError::Api(m),
        ) && m@ == said@),
        served && reply is Ok ==> {
            let read = ranges_of(text::texts(reply->Ok_0@));
            &&& answer is Ok
            &&& answer->Ok_0@.map_values(|r: StaticRange| r@) == read
            &&& final(manager).stats.total_ranges == answer->Ok_0@.len() as usize
            &&& final(manager).stats.last_update == now
            &&& final(manager).assigned_ranges@.map_values(|r: StaticRange| r@).no_duplicates()
            &&& final(manager).assigned_ranges@.map_values(|r: StaticRange| r@).contains(range)
                <==> read.contains(range)
            &&& final(manager).pending_files == old(manager).pending_files
        },
{
    if served && reply is Ok {
        let read = ranges_of(text::texts(reply->Ok_0@));
        let now = range_views(final(manager).assigned_ranges@);
        assert(answer->Ok_0@.map_values(|r: StaticRange| r@) =~= range_views(answer->Ok_0@));
        assert(range_views(answer->Ok_0@).len() == answer->Ok_0@.len());
        assert(now =~= final(manager).assigned_ranges@.map_values(|r: StaticRange| r@));
        assert(now.to_set().contains(range) <==> read.to_set().contains(range));
    }
}

/// A hash lies in a range where it begins, in lower case, with the prefix of one.
pub proof fn law_hashes_lie_in_ranges(manager: StaticRangeManager, hash: &str, lies: bool)
    requires
        call_ensures(StaticRangeManager::is_in_assigned_range, (&manager, hash), lies),
    ensures
        lies <==> exists|i: int|
            0 <= i < manager.assigned_ranges@.len() && text::starts_with(
                text::lowercase(hash@),
                (#[trigger] manager.assigned_ranges@[i]).prefix@,
            ),
{
    let views = range_views(manager.assigned_ranges@);
    assert(views.len() == manager.assigned_ranges@.len());
    assert forall|i: int| 0 <= i < views.len() implies views[i] == (
    #[trigger] manager.assigned_ranges@[i])@ by {}
    if lies {
        let range = choose|range: RangeView| #[trigger]
            manager.assigned().contains(range) && text::starts_with(
                text::lowercase(hash@),
                range.prefix,
            );
        let i = choose|i: int| 0 <= i < views.len() && views[i] == range;
        assert(manager.assigned_ranges@[i].prefix@ == range.prefix);
    }
    if exists|i: int|
        0 <= i < manager.assigned_ranges@.len() && text::starts_with(
            text::lowercase(hash@),
            (#[trigger] manager.assigned_ranges@[i]).prefix@,
        ) {
        let i = choose|i: int|
            0 <= i < manager.assigned_ranges@.len() && text::starts_with(
                text::lowercase(hash@),
                (#[trigger] manager.assigned_ranges@[i]).prefix@,
            );
        assert(views[i] == manager.assigned_ranges@[i]@);
        assert(views.contains(views[i]));
        assert(manager.assigned().contains(views[i]));
    }
}

/// The files of a list are pending; those that are not cached are queued; and a download
/// is good where the reply was a success and the data have the hash of the file.
pub proof fn law_range_files_are_downloaded(
    manager: &mut StaticRangeManager,
    list: &str,
    files: Vec<StaticRangeFile>,
    given: Vec<StaticRangeFile>,
    cache: CacheManager,
    queued: Vec<StaticRangeFile>,
    settings: ServerSettings,
    url: Option<String>,
    file: StaticRangeFile,
    success: bool,
    status: &str,
    bytes: &[u8],
    checked: Result<(), StaticRangeError>,
    starts: bool,
)
    requires
        call_ensures(StaticRangeManager::fetch_files_to_download, (manager, list), files),
        call_ensures(StaticRangeManager::queue_downloads, (&*old(manager), given, &cache), queued),
        call_ensures(StaticRangeManager::files_request, (&*old(manager), &settings), url),
        call_ensures(
            StaticRangeManager::download_file,
            (&*old(manager), &file, success, status, bytes),
            checked,
        ),
        call_ensures(StaticRangeManager::starts_download, (&*old(manager),), starts),
    ensures
        files@.map_values(|f: StaticRangeFile| f@) == downloads_of(text::lines(list@)),
        final(manager).pending_files@.map_values(|f: StaticRangeFile| f@) == downloads_of(
            text::lines(list@),
        ),
        final(manager).stats.files_pending == files@.len() as u64,
        final(manager).stats.files_downloaded == old(manager).stats.files_downloaded,
        final(manager).assigned_ranges == old(manager).assigned_ranges,
        queued@.map_values(|f: StaticRangeFile| f@) == not_cached(
            given@.map_values(|f: StaticRangeFile| f@),
            cache.files().dom(),
        ),
        url is Some <==> settings.request_server@.len() > 0,
        url is Some ==> url->0@ == settings.request_server@ + "/servercmd?cmd=srfetch&cid="@
            + old(manager).client_id@,
        ({
            let hash = digest::hex_of(digest::sha1_of(bytes@));
            &&& checked is Ok <==> success && hash == file.hash@
            &&& !success ==> (checked matches Err(StaticRangeError::DownloadFailed(m)) && m@
                == "HTTP "@ + status@)
            &&& success && hash != file.hash@ ==> (checked matches Err(
                StaticRangeError::DownloadFailed(m),
            ) && m@ == "Hash mismatch: expected "@ + file.hash@ + ", got "@ + hash)
        }),
        starts == old(manager).downloads_enabled,
{
    assert(files@.map_values(|f: StaticRangeFile| f@) =~= range_file_views(files@));
    assert(final(manager).pending_files@.map_values(|f: StaticRangeFile| f@) =~= range_file_views(
        final(manager).pending_files@,
    ));
    assert(queued@.map_values(|f: StaticRangeFile| f@) =~= range_file_views(queued@));
    assert(given@.map_values(|f: StaticRangeFile| f@) =~= range_file_views(given@));
}

/// What is counted of the downloads, and the errors in words.
pub proof fn law_range_downloads_are_counted(
    manager: &mut StaticRangeManager,
    bytes: u64,
    enabled: bool,
    config: Config,
    fresh: StaticRangeManager,
    stats: StaticRangeStats,
    e: StaticRangeError,
    told: String,
    fault: CacheError,
    said: String,
    failure: StaticRangeError,
    ranges: Vec<StaticRange>,
)
    requires
        call_ensures(StaticRangeManager::new, (&config,), fresh),
        call_ensures(StaticRangeManager::get_stats, (&*old(manager),), stats),
        call_ensures(StaticRangeManager::get_assigned_ranges, (&*old(manager),), ranges),
        call_ensures(StaticRangeError::message, (&e,), told),
        call_ensures(CacheError::message, (&fault,), said),
        call_ensures(StaticRangeManager::store_failed, (&fault,), failure),
    ensures
        call_ensures(StaticRangeManager::record_download, (manager, bytes), ()) ==> {
            &&& final(manager).stats.files_downloaded == old(manager).stats.files_downloaded.wrapping_add(1)
            &&& final(manager).stats.bytes_downloaded == old(manager).stats.bytes_downloaded.wrapping_add(bytes)
            &&& old(manager).stats.files_pending > 0 ==> final(manager).stats.files_pending
                == old(manager).stats.files_pending - 1
            &&& old(manager).stats.files_pending == 0 ==> final(manager).stats.files_pending == 0
            &&& final(manager).stats.download_errors == old(manager).stats.download_errors
        },
        call_ensures(StaticRangeManager::record_failure, (manager,), ()) ==> {
            &&& final(manager).stats.download_errors == old(manager).stats.download_errors.wrapping_add(1)
            &&& final(manager).stats.files_downloaded == old(manager).stats.files_downloaded
            &&& final(manager).stats.files_pending == old(manager).stats.files_pending
        },
        call_ensures(StaticRangeManager::set_downloads_enabled, (manager, enabled), ())
            ==> *final(manager) == (StaticRangeManager { downloads_enabled: enabled, ..*old(manager) }),
        call_ensures(StaticRangeManager::clear_ranges, (manager,), ())
            ==> final(manager).assigned_ranges@.len() == 0
            && final(manager).pending_files@.len() == 0 && final(manager).stats
            == old(manager).stats,
        fresh.client_id == config.client_id && fresh.assigned_ranges@.len() == 0,
        fresh.pending_files@.len() == 0 && fresh.downloads_enabled,
        config.download_workers >= 1 ==> fresh.download_workers == config.download_workers,
        config.download_workers == 0 ==> fresh.download_workers == 1,
        fresh.stats.total_ranges == 0 && fresh.stats.files_downloaded == 0
            && fresh.stats.files_pending == 0 && fresh.stats.bytes_downloaded == 0
            && fresh.stats.download_errors == 0 && fresh.stats.last_update == 0
            && fresh.stats.total_files == 0,
        stats == old(manager).stats,
        range_views(ranges@) == range_views(old(manager).assigned_ranges@),
        e matches StaticRangeError::Network(s) ==> told@ == "Network error: "@ + s@,
        e matches StaticRangeError::Api(s) ==> told@ == "API error: "@ + s@,
        e matches StaticRangeError::InvalidFormat(s) ==> told@ == "Invalid range format: "@ + s@,
        e matches StaticRangeError::DownloadFailed(s) ==> told@ == "Download failed: "@ + s@,
        failure matches StaticRangeError::DownloadFailed(m) && m@ == said@,
{
}

}
