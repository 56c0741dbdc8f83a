//! The terminal dashboard: its state, what keys do to it, and the texts it shows.
//!
//! Drawing is left to the caller, and so are percentages, which come as texts.

use crate::cache::CacheStats;
use crate::metrics;
use crate::metrics::HahMetrics;
use crate::text;
use crate::throttle::BandwidthStats;
use std::collections::VecDeque;
use vstd::prelude::*;

verus! {

/// Maximum number of data points to keep for graphs.
pub const MAX_HISTORY_POINTS: usize = 60;

/// Refresh rate in milliseconds.
pub const REFRESH_RATE_MS: u64 = 250;

/// The number of tabs.
pub const TABS: usize = 4;

/// Data shown on the dashboard.
#[derive(Debug, Clone)]
pub struct TuiData {
    pub client_id: String,
    pub client_name: String,
    pub connected: bool,
    pub host: String,
    pub port: u16,
    pub metrics: HahMetrics,
    pub cache_stats: CacheStats,
    pub bandwidth: BandwidthStats,
    /// Number, status, images downloaded and in all, of each gallery.
    pub gallery_downloads: Vec<(String, String, i64, i64)>,
    /// Number, title, status, bytes downloaded and in all, of each archive.
    pub archive_downloads: Vec<(String, String, String, i64, i64)>,
    pub log_messages: Vec<String>,
    pub static_ranges_count: usize,
    pub static_ranges_enabled: bool,
    pub proxy_mode_enabled: bool,
}

impl Default for TuiData {
    fn default() -> (r: Self)
        ensures
            r.client_id@.len() == 0,
            r.client_name@.len() == 0,
            !r.connected,
            r.host@.len() == 0,
            r.port == 0,
            r.metrics == HahMetrics::zero(),
            r.cache_stats == CacheStats::zero(),
            r.bandwidth == BandwidthStats::zero(),
            r.gallery_downloads@.len() == 0,
            r.archive_downloads@.len() == 0,
            r.log_messages@.len() == 0,
            r.static_ranges_count == 0,
            !r.static_ranges_enabled,
            !r.proxy_mode_enabled,
    {
        TuiData {
            client_id: String::new(),
            client_name: String::new(),
            connected: false,
            host: String::new(),
            port: 0,
            metrics: HahMetrics::default(),
            cache_stats: CacheStats::default(),
            bandwidth: BandwidthStats::default(),
            gallery_downloads: Vec::new(),
            archive_downloads: Vec::new(),
            log_messages: Vec::new(),
            static_ranges_count: 0,
            static_ranges_enabled: false,
            proxy_mode_enabled: false,
        }
    }
}

/// Keys that the dashboard knows.
#[derive(Debug, Clone, Copy, PartialEq, Eq, Structural)]
pub enum Key {
    Char(char),
    Esc,
    Tab,
    BackTab,
    Left,
    Right,
    Up,
    Down,
    PageUp,
    PageDown,
    Home,
    Other,
}

/// State of the dashboard.
pub struct TuiState {
    /// Bandwidth history in bytes per second, oldest first.
    pub bps_history: VecDeque<u64>,
    /// Selected tab.
    pub selected_tab: usize,
    /// Scroll offset for the log view.
    pub log_scroll: usize,
    /// Whether to show the help overlay.
    pub show_help: bool,
}

/// The tab that a key selects.
pub open spec fn tab_after(key: Key, tab: usize) -> usize {
    match key {
        Key::Tab | Key::Right => if tab + 1 < TABS {
            (tab + 1) as usize
        } else {
            0
        },
        Key::BackTab | Key::Left => if tab > 0 {
            (tab - 1) as usize
        } else {
            3
        },
        Key::Char('1') => 0,
        Key::Char('2') => 1,
        Key::Char('3') => 2,
        Key::Char('4') => 3,
        _ => tab,
    }
}

/// Where a key scrolls the log to.
pub open spec fn scroll_after(key: Key, scroll: usize) -> usize {
    match key {
        Key::Up | Key::Char('k') => scroll.saturating_sub(1),
        Key::Down | Key::Char('j') => scroll.saturating_add(1),
        Key::PageUp => scroll.saturating_sub(10),
        Key::PageDown => scroll.saturating_add(10),
        Key::Home => 0,
        _ => scroll,
    }
}

/// The key leaves the program.
pub open spec fn quits(key: Key) -> bool {
    key == Key::Char('q') || key == Key::Esc
}

/// The key shows the help, or hides it.
pub open spec fn toggles_help(key: Key) -> bool {
    key == Key::Char('?') || key == Key::Char('h')
}

impl Default for TuiState {
    fn default() -> (r: Self)
        ensures
            r.wf(),
            r.bps_history@.len() == 0,
            r.selected_tab == 0,
            r.log_scroll == 0,
            !r.show_help,
    {
        TuiState {
            bps_history: VecDeque::with_capacity(MAX_HISTORY_POINTS),
            selected_tab: 0,
            log_scroll: 0,
            show_help: false,
        }
    }
}

/// The history with one more point, and at most sixty.
pub open spec fn remembered(history: Seq<u64>, bps: u64) -> Seq<u64> {
    let longer = history.push(bps);
    if longer.len() > MAX_HISTORY_POINTS {
        longer.drop_first()
    } else {
        longer
    }
}

/// The largest point of the history; 1 where there is none.
pub open spec fn largest(history: Seq<u64>) -> u64
    decreases history.len(),
{
    if history.len() == 0 {
        1
    } else if history.len() == 1 {
        history[0]
    } else {
        let rest = largest(history.drop_last());
        if history.last() >= rest {
            history.last()
        } else {
            rest
        }
    }
}

impl TuiState {
    /// One of the tabs is selected, and the history is not too long.
    pub open spec fn wf(&self) -> bool {
        &&& self.selected_tab < TABS
        &&& self.bps_history@.len() <= MAX_HISTORY_POINTS
    }

    /// A key is pressed. Returns true if the program is to be left.
    pub fn handle_key(&mut self, key: Key) -> (quit: bool)
        requires
            old(self).wf(),
        ensures
            final(self).wf(),
            quit == quits(key),
            *final(self) == (TuiState {
                selected_tab: tab_after(key, old(self).selected_tab),
                log_scroll: scroll_after(key, old(self).log_scroll),
                show_help: if toggles_help(key) {
                    !old(self).show_help
                } else {
                    old(self).show_help
                },
                ..*old(self)
            }),
    {
        match key {
            Key::Char('q') | Key::Esc => {
                return true;
            },
            Key::Char('?') | Key::Char('h') => {
                self.show_help = !self.show_help;
            },
            Key::Tab | Key::Right => {
                self.selected_tab = (self.selected_tab + 1) % TABS;
            },
            Key::BackTab | Key::Left => {
                self.selected_tab = if self.selected_tab == 0 {
                    3
                } else {
                    self.selected_tab - 1
                };
            },
            Key::Char('1') => {
                self.selected_tab = 0;
            },
            Key::Char('2') => {
                self.selected_tab = 1;
            },
            Key::Char('3') => {
                self.selected_tab = 2;
            },
            Key::Char('4') => {
                self.selected_tab = 3;
            },
            Key::Up | Key::Char('k') => {
                self.log_scroll = self.log_scroll.saturating_sub(1);
            },
            Key::Down | Key::Char('j') => {
                self.log_scroll = self.log_scroll.saturating_add(1);
            },
            Key::PageUp => {
                self.log_scroll = self.log_scroll.saturating_sub(10);
            },
            Key::PageDown => {
                self.log_scroll = self.log_scroll.saturating_add(10);
            },
            Key::Home => {
                self.log_scroll = 0;
            },
            _ => {},
        }
        false
    }

    /// Remember the bandwidth of another second.
    pub fn record_bps(&mut self, bps: u64)
        requires
            old(self).wf(),
        ensures
            final(self).wf(),
            final(self).bps_history@ == remembered(old(self).bps_history@, bps),
            *final(self) == (TuiState { bps_history: final(self).bps_history, ..*old(self) }),
    {
        self.bps_history.push_back(bps);
        if self.bps_history.len() > MAX_HISTORY_POINTS {
            let _ = self.bps_history.pop_front();
        }
        proof {
            assert(self.bps_history@ =~= remembered(old(self).bps_history@, bps));
        }
    }

    /// Keep the scroll offset where there is something to show; `height` is that of
    /// the log view with its border. The first entry to show and how many fit.
    pub fn log_window(&mut self, entries: usize, height: u16) -> (r: (usize, usize))
        requires
            height >= 2,
        ensures
            ({
                let lines = height - 2;
                let most = if entries > lines {
                    entries - lines
                } else {
                    0
                };
                &&& final(self).log_scroll == (if old(self).log_scroll > most {
                    most
                } else {
                    old(self).log_scroll as int
                })
                &&& r == (final(self).log_scroll, lines as usize)
                &&& *final(self) == (TuiState { log_scroll: final(self).log_scroll, ..*old(self) })
            }),
    {
        let lines: usize = height as usize - 2;
        let most: usize = entries.saturating_sub(lines);
        if self.log_scroll > most {
            self.log_scroll = most;
        }
        (self.log_scroll, lines)
    }

    /// The title of the log view: the first entry shown, of all.
    pub fn log_title(&self, entries: usize) -> (r: String)
        requires
            self.log_scroll < usize::MAX,
        ensures
            r@ == " Logs ["@ + text::decimal((self.log_scroll + 1) as nat) + "/"@ + text::decimal(
                if entries >= 1 {
                    entries as nat
                } else {
                    1
                },
            ) + "] "@,
    {
        let mut r = " Logs [".to_string();
        r.append(text::decimal_of((self.log_scroll + 1) as u64).as_str());
        r.append("/");
        let all: usize = if entries >= 1 {
            entries
        } else {
            1
        };
        r.append(text::decimal_of(all as u64).as_str());
        r.append("] ");
        r
    }

    fn largest_bps(&self) -> (m: u64)
        ensures
            m == largest(self.bps_history@),
    {
        let ghost all = self.bps_history@;
        if self.bps_history.len() == 0 {
            return 1;
        }
        let mut m: u64 = self.bps_history[0];
        let mut i: usize = 1;
        proof {
            assert(all.take(1)[0] == all[0]);
        }
        while i < self.bps_history.len()
            invariant
                1 <= i <= self.bps_history.len(),
                all == self.bps_history@,
                m == largest(all.take(i as int)),
            decreases self.bps_history.len() - i,
        {
            proof {
                assert(all.take(i + 1).drop_last() =~= all.take(i as int));
            }
            if self.bps_history[i] >= m {
                m = self.bps_history[i];
            }
            i = i + 1;
        }
        proof {
            assert(all.take(i as int) =~= all);
        }
        m
    }

    /// The title of the bandwidth graph: the last point and the largest.
    pub fn bandwidth_title(&self) -> (r: String)
        ensures
            r@ == " Bandwidth: "@ + metrics::bytes_text(
                if self.bps_history@.len() > 0 {
                    self.bps_history@.last() as nat
                } else {
                    0
                },
            ) + "/s"@ + " (max: "@ + metrics::bytes_text(largest(self.bps_history@) as nat) + "/s"@
                + ") "@,
    {
        let n: usize = self.bps_history.len();
        let current: u64 = if n > 0 {
            self.bps_history[n - 1]
        } else {
            0
        };
        let mut r = " Bandwidth: ".to_string();
        r.append(metrics::format_bytes(current).as_str());
        r.append("/s");
        r.append(" (max: ");
        r.append(metrics::format_bytes(self.largest_bps()).as_str());
        r.append("/s");
        r.append(") ");
        r
    }
}

/// The tab keys go round: as many steps as there are tabs lead back, and a step
/// back undoes a step forth.
pub proof fn law_tabs_go_round(tab: usize)
    requires
        tab < TABS,
    ensures
        tab_after(
            Key::Tab,
            tab_after(Key::Tab, tab_after(Key::Tab, tab_after(Key::Tab, tab))),
        ) == tab,
        tab_after(Key::BackTab, tab_after(Key::Tab, tab)) == tab,
        tab_after(Key::Tab, tab_after(Key::BackTab, tab)) == tab,
{
}

/// The history never holds more than sixty points, of which the last is the latest.
pub proof fn law_history_is_bounded(history: Seq<u64>, bps: u64)
    requires
        history.len() <= MAX_HISTORY_POINTS,
    ensures
        remembered(history, bps).len() <= MAX_HISTORY_POINTS,
        remembered(history, bps).last() == bps,
{
}

// ---------------------------------------------------------------------------
// Colours
// ---------------------------------------------------------------------------

#[derive(Debug, Clone, Copy, PartialEq, Eq, Structural)]
pub enum Colour {
    Green,
    Cyan,
    Red,
    Yellow,
    White,
}

/// The colour of a download with this status.
pub open spec fn colour_of_status(status: Seq<char>) -> Colour {
    if status == "completed"@ {
        Colour::Green
    } else if status == "downloading"@ {
        Colour::Cyan
    } else if status == "failed"@ {
        Colour::Red
    } else {
        Colour::Yellow
    }
}

pub fn status_colour(status: &str) -> (r: Colour)
    ensures
        r == colour_of_status(status@),
{
    if text::same(status, "completed") {
        Colour::Green
    } else if text::same(status, "downloading") {
        Colour::Cyan
    } else if text::same(status, "failed") {
        Colour::Red
    } else {
        Colour::Yellow
    }
}

/// The colour of a log entry.
pub open spec fn colour_of_entry(entry: Seq<char>) -> Colour {
    if text::contains(entry, "ERROR"@) || text::contains(entry, "error"@) {
        Colour::Red
    } else if text::contains(entry, "WARN"@) || text::contains(entry, "warn"@) {
        Colour::Yellow
    } else if text::contains(entry, "INFO"@) || text::contains(entry, "info"@) {
        Colour::Cyan
    } else {
        Colour::White
    }
}

pub fn entry_colour(entry: &str) -> (r: Colour)
    ensures
        r == colour_of_entry(entry@),
{
    if text::has_substring(entry, "ERROR") || text::has_substring(entry, "error") {
        Colour::Red
    } else if text::has_substring(entry, "WARN") || text::has_substring(entry, "warn") {
        Colour::Yellow
    } else if text::has_substring(entry, "INFO") || text::has_substring(entry, "info") {
        Colour::Cyan
    } else {
        Colour::White
    }
}

/// The colour of a score in percent.
pub fn score_colour(percent: u16) -> (r: Colour)
    ensures
        r == (if percent >= 90 {
            Colour::Green
        } else if percent >= 70 {
            Colour::Yellow
        } else {
            Colour::Red
        }),
{
    if percent >= 90 {
        Colour::Green
    } else if percent >= 70 {
        Colour::Yellow
    } else {
        Colour::Red
    }
}

// ---------------------------------------------------------------------------
// Texts
// ---------------------------------------------------------------------------

/// Where a popup of this size is centred in an area.
pub fn popup_origin(width: u16, height: u16, popup_width: u16, popup_height: u16) -> (r: (u16, u16))
    ensures
        r.0 == (if width > popup_width {
            (width - popup_width) / 2
        } else {
            0
        }),
        r.1 == (if height > popup_height {
            (height - popup_height) / 2
        } else {
            0
        }),
{
    (width.saturating_sub(popup_width) / 2, height.saturating_sub(popup_height) / 2)
}

/// A title that is too long is cut.
pub open spec fn short_title(title: Seq<char>) -> Seq<char> {
    if text::byte_len(title) > 30 {
        text::byte_prefix(title, 27)->0 + "..."@
    } else {
        title
    }
}

/// The title of an archive, at most thirty bytes long.
pub fn display_title(title: &str) -> (r: String)
    requires
        text::byte_len(title@) > 30 ==> text::byte_prefix(title@, 27) is Some,
    ensures
        r@ == short_title(title@),
{
    if text::byte_length(title) > 30 {
        let mut r = match text::prefix_of_bytes(title, 27) {
            Some(prefix) => prefix,
            None => title.to_string(),
        };
        r.append("...");
        r
    } else {
        title.to_string()
    }
}

/// So many of so many.
pub fn progress_text(downloaded: i64, total: i64) -> (r: String)
    ensures
        r@ == text::decimal_int(downloaded as int) + "/"@ + text::decimal_int(total as int),
{
    let mut r = text::decimal_of_int(downloaded);
    r.append("/");
    r.append(text::decimal_of_int(total).as_str());
    r
}

pub open spec fn enabled_text(enabled: bool) -> Seq<char> {
    if enabled {
        "enabled"@
    } else {
        "disabled"@
    }
}

fn enabled_word(enabled: bool) -> (r: &'static str)
    ensures
        r@ == enabled_text(enabled),
{
    if enabled {
        "enabled"
    } else {
        "disabled"
    }
}

/// The lines of the status panel.
pub open spec fn status_panel(data: TuiData) -> Seq<Seq<char>> {
    seq![
        "Client ID:     "@ + data.client_id@,
        "Server:        "@ + data.host@ + ":"@ + text::decimal(data.port as nat),
        "Static Ranges: "@ + text::decimal(data.static_ranges_count as nat) + " ("@ + enabled_text(
            data.static_ranges_enabled,
        ) + ")"@,
        "Proxy Mode:    "@ + enabled_text(data.proxy_mode_enabled),
        "Connections:   "@ + text::decimal(data.metrics.current_connections as nat) + " (peak: "@
            + text::decimal(data.metrics.peak_connections as nat) + ")"@,
    ]
}

/// The lines of the status panel.
pub fn status_lines(data: &TuiData) -> (r: Vec<String>)
    ensures
        text::texts(r@) == status_panel(*data),
{
    let client = "Client ID:     ".to_string().concat(data.client_id.as_str());
    let mut server = "Server:        ".to_string();
    server.append(data.host.as_str());
    server.append(":");
    server.append(text::decimal_of(data.port as u64).as_str());
    let mut ranges = "Static Ranges: ".to_string();
    ranges.append(text::decimal_of(data.static_ranges_count as u64).as_str());
    ranges.append(" (");
    ranges.append(enabled_word(data.static_ranges_enabled));
    ranges.append(")");
    let proxy = "Proxy Mode:    ".to_string().concat(enabled_word(data.proxy_mode_enabled));
    let mut connections = "Connections:   ".to_string();
    connections.append(text::decimal_of(data.metrics.current_connections).as_str());
    connections.append(" (peak: ");
    connections.append(text::decimal_of(data.metrics.peak_connections).as_str());
    connections.append(")");
    let r: Vec<String> = vec![client, server, ranges, proxy, connections];
    proof {
        assert(text::texts(r@) =~= status_panel(*data));
    }
    r
}

/// The lines of the performance panel.
pub open spec fn metrics_panel(
    m: HahMetrics,
    success_rate: Seq<char>,
    response_time: Seq<char>,
) -> Seq<Seq<char>> {
    seq![
        "Requests:      "@ + text::decimal(m.total_requests as nat),
        "Success Rate:  "@ + success_rate + "%"@,
        "Bytes Served:  "@ + metrics::bytes_text(m.bytes_served as nat),
        "Avg Response:  "@ + response_time + "ms"@,
        "Heartbeats:    "@ + text::decimal(m.heartbeats_success as nat) + "/"@ + text::decimal(
            m.heartbeats_sent as nat,
        ),
    ]
}

/// The lines of the performance panel.
pub fn metrics_lines(m: &HahMetrics, success_rate: &str, response_time: &str) -> (r: Vec<String>)
    ensures
        text::texts(r@) == metrics_panel(*m, success_rate@, response_time@),
{
    let requests = "Requests:      ".to_string().concat(
        text::decimal_of(m.total_requests).as_str(),
    );
    let success = "Success Rate:  ".to_string().concat(success_rate).concat("%");
    let bytes = "Bytes Served:  ".to_string().concat(
        metrics::format_bytes(m.bytes_served).as_str(),
    );
    let response = "Avg Response:  ".to_string().concat(response_time).concat("ms");
    let mut heartbeats = "Heartbeats:    ".to_string();
    heartbeats.append(text::decimal_of(m.heartbeats_success).as_str());
    heartbeats.append("/");
    heartbeats.append(text::decimal_of(m.heartbeats_sent).as_str());
    let r: Vec<String> = vec![requests, success, bytes, response, heartbeats];
    proof {
        assert(text::texts(r@) =~= metrics_panel(*m, success_rate@, response_time@));
    }
    r
}

/// The lines of the cache panel.
pub open spec fn cache_panel(s: CacheStats, hit_rate: Seq<char>) -> Seq<Seq<char>> {
    seq![
        "Total Files:   "@ + text::decimal(s.total_files as nat),
        "Cache Size:    "@ + metrics::bytes_text(s.total_size as nat),
        "Cache Hits:    "@ + text::decimal(s.hits as nat),
        "Cache Misses:  "@ + text::decimal(s.misses as nat),
        "Hit Rate:      "@ + hit_rate + "%"@,
        "Bytes Served:  "@ + metrics::bytes_text(s.bytes_served as nat),
    ]
}

/// The lines of the cache panel.
pub fn cache_lines(s: &CacheStats, hit_rate: &str) -> (r: Vec<String>)
    ensures
        text::texts(r@) == cache_panel(*s, hit_rate@),
{
    let r: Vec<String> = vec![
        "Total Files:   ".to_string().concat(text::decimal_of(s.total_files).as_str()),
        "Cache Size:    ".to_string().concat(metrics::format_bytes(s.total_size).as_str()),
        "Cache Hits:    ".to_string().concat(text::decimal_of(s.hits).as_str()),
        "Cache Misses:  ".to_string().concat(text::decimal_of(s.misses).as_str()),
        "Hit Rate:      ".to_string().concat(hit_rate).concat("%"),
        "Bytes Served:  ".to_string().concat(metrics::format_bytes(s.bytes_served).as_str()),
    ];
    proof {
        assert(text::texts(r@) =~= cache_panel(*s, hit_rate@));
    }
    r
}

pub open spec fn row_views(rows: Seq<(&'static str, String)>) -> Seq<(Seq<char>, Seq<char>)> {
    rows.map_values(|row: (&'static str, String)| (row.0@, row.1@))
}

/// The rows of the table of cache statistics.
pub open spec fn cache_table(s: CacheStats, hit_rate: Seq<char>) -> Seq<(Seq<char>, Seq<char>)> {
    seq![
        ("Total Files"@, text::decimal(s.total_files as nat)),
        ("Total Size"@, metrics::bytes_text(s.total_size as nat)),
        ("Cache Hits"@, text::decimal(s.hits as nat)),
        ("Cache Misses"@, text::decimal(s.misses as nat)),
        ("Hit Rate"@, hit_rate + "%"@),
        ("Bytes Served"@, metrics::bytes_text(s.bytes_served as nat)),
    ]
}

/// The rows of the table of cache statistics.
pub fn cache_rows(s: &CacheStats, hit_rate: &str) -> (r: Vec<(&'static str, String)>)
    ensures
        row_views(r@) == cache_table(*s, hit_rate@),
{
    let r: Vec<(&'static str, String)> = vec![
        ("Total Files", text::decimal_of(s.total_files)),
        ("Total Size", metrics::format_bytes(s.total_size)),
        ("Cache Hits", text::decimal_of(s.hits)),
        ("Cache Misses", text::decimal_of(s.misses)),
        ("Hit Rate", hit_rate.to_string().concat("%")),
        ("Bytes Served", metrics::format_bytes(s.bytes_served)),
    ];
    proof {
        assert(row_views(r@) =~= cache_table(*s, hit_rate@));
    }
    r
}

/// The rows of the table of bandwidth statistics.
pub open spec fn bandwidth_table(b: BandwidthStats, average_kb: Seq<char>) -> Seq<
    (Seq<char>, Seq<char>),
> {
    seq![
        ("Current Speed"@, metrics::bytes_text(b.bytes_per_second as nat) + "/s"@),
        ("Per Minute"@, metrics::bytes_text(b.bytes_per_minute as nat)),
        ("Per Hour"@, metrics::bytes_text(b.bytes_per_hour as nat)),
        ("Total Transferred"@, metrics::bytes_text(b.total_bytes as nat)),
        ("Average Speed"@, average_kb + " KB/s"@),
        ("Peak Speed"@, metrics::bytes_text(b.peak_speed as nat) + "/s"@),
        ("Requests Served"@, text::decimal(b.requests_served as nat)),
    ]
}

/// The rows of the table of bandwidth statistics.
pub fn bandwidth_rows(b: &BandwidthStats, average_kb: &str) -> (r: Vec<(&'static str, String)>)
    ensures
        row_views(r@) == bandwidth_table(*b, average_kb@),
{
    let r: Vec<(&'static str, String)> = vec![
        ("Current Speed", metrics::format_bytes(b.bytes_per_second).concat("/s")),
        ("Per Minute", metrics::format_bytes(b.bytes_per_minute)),
        ("Per Hour", metrics::format_bytes(b.bytes_per_hour)),
        ("Total Transferred", metrics::format_bytes(b.total_bytes)),
        ("Average Speed", average_kb.to_string().concat(" KB/s")),
        ("Peak Speed", metrics::format_bytes(b.peak_speed).concat("/s")),
        ("Requests Served", text::decimal_of(b.requests_served)),
    ];
    proof {
        assert(row_views(r@) =~= bandwidth_table(*b, average_kb@));
    }
    r
}

// ---------------------------------------------------------------------------
// Laws
// ---------------------------------------------------------------------------

/// What each key does, and that it does nothing else; four times a second the screen is
/// drawn anew.
pub proof fn law_keys_are_handled(state: &mut TuiState, key: Key, quit: bool)
    requires
        call_ensures(TuiState::handle_key, (state, key), quit),
        old(state).selected_tab < 4,
    ensures
        REFRESH_RATE_MS == 250,
        quit <==> key == Key::Char('q') || key == Key::Esc,
        key == Key::Char('?') || key == Key::Char('h') ==> final(state).show_help
            == !old(state).show_help,
        key != Key::Char('?') && key != Key::Char('h') ==> final(state).show_help
            == old(state).show_help,
        key == Key::Tab || key == Key::Right ==> final(state).selected_tab
            == (old(state).selected_tab + 1) % 4,
        key == Key::BackTab || key == Key::Left ==> final(state).selected_tab
            == (old(state).selected_tab + 3) % 4,
        key == Key::Char('1') ==> final(state).selected_tab == 0,
        key == Key::Char('2') ==> final(state).selected_tab == 1,
        key == Key::Char('3') ==> final(state).selected_tab == 2,
        key == Key::Char('4') ==> final(state).selected_tab == 3,
        key != Key::Tab && key != Key::Right && key != Key::BackTab && key != Key::Left && key
            != Key::Char('1') && key != Key::Char('2') && key != Key::Char('3') && key != Key::Char(
            '4',
        ) ==> final(state).selected_tab == old(state).selected_tab,
        ({
            let before = old(state).log_scroll;
            let after = final(state).log_scroll;
            &&& key == Key::Up || key == Key::Char('k') ==> after == (if before >= 1 {
                before - 1
            } else {
                0
            })
            &&& key == Key::PageUp ==> after == (if before >= 10 {
                before - 10
            } else {
                0
            })
            &&& (key == Key::Down || key == Key::Char('j')) && before + 1 <= usize::MAX ==> after
                == before + 1
            &&& key == Key::PageDown && before + 10 <= usize::MAX ==> after == before + 10
            &&& key == Key::Home ==> after == 0
            &&& key != Key::Up && key != Key::Char('k') && key != Key::PageUp && key != Key::Down
                && key != Key::Char('j') && key != Key::PageDown && key != Key::Home ==> after
                == before
        }),
        final(state).bps_history == old(state).bps_history,
{
}

/// The graph keeps the last sixty points; its title shows the last and the largest.
pub proof fn law_bandwidth_is_shown(
    state: &mut TuiState,
    bps: u64,
    title: String,
    current: u64,
    most: u64,
    shown: String,
    peak: String,
)
    requires
        call_ensures(TuiState::record_bps, (state, bps), ()),
        call_ensures(TuiState::bandwidth_title, (&*old(state),), title),
        call_ensures(metrics::format_bytes, (current,), shown),
        call_ensures(metrics::format_bytes, (most,), peak),
        old(state).bps_history@.len() > 0 ==> current == old(state).bps_history@.last()
            && old(state).bps_history@.contains(most) && forall|i: int|
            0 <= i < old(state).bps_history@.len() ==> #[trigger] old(state).bps_history@[i]
                <= most,
        old(state).bps_history@.len() == 0 ==> current == 0 && most == 1,
    ensures
        old(state).bps_history@.len() < 60 ==> final(state).bps_history@
            == old(state).bps_history@.push(bps),
        old(state).bps_history@.len() == 60 ==> final(state).bps_history@
            == old(state).bps_history@.skip(1).push(bps),
        final(state).selected_tab == old(state).selected_tab,
        final(state).log_scroll == old(state).log_scroll,
        title@ == " Bandwidth: "@ + shown@ + "/s"@ + " (max: "@ + peak@ + "/s"@ + ") "@,
{
    let history = old(state).bps_history@;
    if history.len() > 0 {
        lemma_largest(history, most);
    }
    if history.len() == 60 {
        assert(history.push(bps).drop_first() =~= history.skip(1).push(bps));
    }
}

proof fn lemma_largest(history: Seq<u64>, most: u64)
    requires
        history.len() > 0,
        history.contains(most),
        forall|i: int| 0 <= i < history.len() ==> #[trigger] history[i] <= most,
    ensures
        largest(history) == most,
    decreases history.len(),
{
    let at = choose|i: int| 0 <= i < history.len() && history[i] == most;
    if history.len() > 1 {
        let rest = history.drop_last();
        assert(history[history.len() - 1] <= most);
        assert forall|i: int| 0 <= i < rest.len() implies #[trigger] rest[i] <= most by {
            assert(rest[i] == history[i]);
        }
        if at < rest.len() {
            assert(rest[at] == most);
            lemma_largest(rest, most);
        } else {
            lemma_largest_bound(rest, most);
        }
    } else {
        assert(at == 0);
    }
}

proof fn lemma_largest_bound(history: Seq<u64>, most: u64)
    requires
        history.len() > 0,
        forall|i: int| 0 <= i < history.len() ==> #[trigger] history[i] <= most,
    ensures
        largest(history) <= most,
    decreases history.len(),
{
    if history.len() > 1 {
        let rest = history.drop_last();
        assert(history[history.len() - 1] <= most);
        assert forall|i: int| 0 <= i < rest.len() implies #[trigger] rest[i] <= most by {
            assert(rest[i] == history[i]);
        }
        lemma_largest_bound(rest, most);
    } else {
        assert(history[0] <= most);
    }
}

/// The log scrolls no further than its last page; its title counts from one.
pub proof fn law_log_is_shown(
    state: &mut TuiState,
    entries: usize,
    height: u16,
    window: (usize, usize),
    title: String,
)
    requires
        call_ensures(TuiState::log_window, (state, entries, height), window),
        call_ensures(TuiState::log_title, (&*old(state), entries), title),
        height >= 2,
    ensures
        window.1 == height - 2 && window.0 == final(state).log_scroll,
        window.0 <= old(state).log_scroll,
        window.0 < old(state).log_scroll ==> window.0 == (if entries >= window.1 {
            entries - window.1
        } else {
            0
        }),
        window.0 == old(state).log_scroll ==> window.0 == 0 || window.0 + window.1 <= entries,
        entries > 0 ==> title@ == " Logs ["@ + text::decimal((old(state).log_scroll + 1) as nat)
            + "/"@ + text::decimal(entries as nat) + "] "@,
        entries == 0 ==> title@ == " Logs ["@ + text::decimal((old(state).log_scroll + 1) as nat)
            + "/"@ + text::decimal(1) + "] "@,
{
}

/// The colours of states, log entries and scores.
pub proof fn law_colours_are_chosen(
    status: &str,
    colour: Colour,
    entry: &str,
    shade: Colour,
    percent: u16,
    score: Colour,
)
    requires
        call_ensures(status_colour, (status,), colour),
        call_ensures(entry_colour, (entry,), shade),
        call_ensures(score_colour, (percent,), score),
    ensures
        colour == Colour::Green <==> status@ == "completed"@,
        colour == Colour::Cyan <==> status@ == "downloading"@,
        colour == Colour::Red <==> status@ == "failed"@,
        colour == Colour::Yellow <==> status@ != "completed"@ && status@ != "downloading"@
            && status@
            != "failed"@,
        ({
            let error = text::contains(entry@, "ERROR"@) || text::contains(entry@, "error"@);
            let warn = text::contains(entry@, "WARN"@) || text::contains(entry@, "warn"@);
            let info = text::contains(entry@, "INFO"@) || text::contains(entry@, "info"@);
            &&& shade == Colour::Red <==> error
            &&& shade == Colour::Yellow <==> !error && warn
            &&& shade == Colour::Cyan <==> !error && !warn && info
            &&& shade == Colour::White <==> !error && !warn && !info
        }),
        percent >= 90 ==> score == Colour::Green,
        70 <= percent < 90 ==> score == Colour::Yellow,
        percent < 70 ==> score == Colour::Red,
{
    reveal_strlit("completed");
    reveal_strlit("downloading");
    reveal_strlit("failed");
    assert("completed"@.len() == 9 && "downloading"@.len() == 11 && "failed"@.len() == 6);
}

/// A title of more than thirty bytes is cut to its first 27, and three dots say so; a popup
/// stands in the middle; and progress is so many of so many.
pub proof fn law_titles_are_cut(
    title: &str,
    shown: String,
    first: Seq<char>,
    rest: Seq<char>,
    size: (u16, u16, u16, u16),
    origin: (u16, u16),
    done: i64,
    all: i64,
    progress: String,
)
    requires
        call_ensures(display_title, (title,), shown),
        call_ensures(popup_origin, (size.0, size.1, size.2, size.3), origin),
        call_ensures(progress_text, (done, all), progress),
    ensures
        text::byte_len(title@) <= 30 ==> shown@ == title@,
        text::byte_len(title@) > 30 && title@ == first + rest && text::byte_len(first) == 27
            ==> shown@ == first + "..."@,
        size.0 >= size.2 ==> 2 * origin.0 <= size.0 - size.2 <= 2 * origin.0 + 1,
        size.0 < size.2 ==> origin.0 == 0,
        size.1 >= size.3 ==> 2 * origin.1 <= size.1 - size.3 <= 2 * origin.1 + 1,
        size.1 < size.3 ==> origin.1 == 0,
        progress@ == text::decimal_int(done as int) + "/"@ + text::decimal_int(all as int),
{
    if title@ == first + rest && text::byte_len(first) == 27 {
        assert(title@.take(first.len() as int) =~= first);
        text::lemma_byte_len(first);
        text::law_bytes_are_utf8(title@, 27, first.len() as int);
    }
}

/// The lines of the panels.
pub proof fn law_panels_are_filled(
    data: TuiData,
    status: Vec<String>,
    m: HahMetrics,
    rate: &str,
    time: &str,
    measured: Vec<String>,
    bytes: String,
)
    requires
        call_ensures(status_lines, (&data,), status),
        call_ensures(metrics_lines, (&m, rate, time), measured),
        call_ensures(metrics::format_bytes, (m.bytes_served,), bytes),
    ensures
        status@.len() == 5,
        status@[0]@ == "Client ID:     "@ + data.client_id@,
        status@[1]@ == "Server:        "@ + data.host@ + ":"@ + text::decimal(data.port as nat),
        status@[2]@ == "Static Ranges: "@ + text::decimal(data.static_ranges_count as nat) + " ("@
            + (if data.static_ranges_enabled {
            "enabled"@
        } else {
            "disabled"@
        }) + ")"@,
        status@[3]@ == "Proxy Mode:    "@ + (if data.proxy_mode_enabled {
            "enabled"@
        } else {
            "disabled"@
        }),
        status@[4]@ == "Connections:   "@ + text::decimal(data.metrics.current_connections as nat)
            + " (peak: "@ + text::decimal(data.metrics.peak_connections as nat) + ")"@,
        measured@.len() == 5,
        measured@[0]@ == "Requests:      "@ + text::decimal(m.total_requests as nat),
        measured@[1]@ == "Success Rate:  "@ + rate@ + "%"@,
        measured@[2]@ == "Bytes Served:  "@ + bytes@,
        measured@[3]@ == "Avg Response:  "@ + time@ + "ms"@,
        measured@[4]@ == "Heartbeats:    "@ + text::decimal(m.heartbeats_success as nat) + "/"@
            + text::decimal(m.heartbeats_sent as nat),
{
    let lines = text::texts(status@);
    assert(lines.len() == status@.len());
    assert forall|i: int| 0 <= i < status@.len() implies lines[i] == (#[trigger] status@[i])@ by {}
    let rows = text::texts(measured@);
    assert(rows.len() == measured@.len());
    assert forall|i: int| 0 <= i < measured@.len() implies rows[i] == (
    #[trigger] measured@[i])@ by {}
}

/// The panel and the table of the cache.
pub proof fn law_cache_is_shown(
    s: CacheStats,
    rate: &str,
    lines: Vec<String>,
    rows: Vec<(&'static str, String)>,
    size: String,
    served: String,
)
    requires
        call_ensures(cache_lines, (&s, rate), lines),
        call_ensures(cache_rows, (&s, rate), rows),
        call_ensures(metrics::format_bytes, (s.total_size,), size),
        call_ensures(metrics::format_bytes, (s.bytes_served,), served),
    ensures
        lines@.len() == 6 && rows@.len() == 6,
        lines@[0]@ == "Total Files:   "@ + text::decimal(s.total_files as nat),
        lines@[1]@ == "Cache Size:    "@ + size@,
        lines@[2]@ == "Cache Hits:    "@ + text::decimal(s.hits as nat),
        lines@[3]@ == "Cache Misses:  "@ + text::decimal(s.misses as nat),
        lines@[4]@ == "Hit Rate:      "@ + rate@ + "%"@,
        lines@[5]@ == "Bytes Served:  "@ + served@,
        rows@[0].0@ == "Total Files"@ && rows@[0].1@ == text::decimal(s.total_files as nat),
        rows@[1].0@ == "Total Size"@ && rows@[1].1@ == size@,
        rows@[2].0@ == "Cache Hits"@ && rows@[2].1@ == text::decimal(s.hits as nat),
        rows@[3].0@ == "Cache Misses"@ && rows@[3].1@ == text::decimal(s.misses as nat),
        rows@[4].0@ == "Hit Rate"@ && rows@[4].1@ == rate@ + "%"@,
        rows@[5].0@ == "Bytes Served"@ && rows@[5].1@ == served@,
{
    let texts = text::texts(lines@);
    assert(texts.len() == lines@.len());
    assert forall|i: int| 0 <= i < lines@.len() implies texts[i] == (#[trigger] lines@[i])@ by {}
    let views = row_views(rows@);
    assert(views.len() == rows@.len());
    assert forall|i: int| 0 <= i < rows@.len() implies views[i] == (
        (#[trigger] rows@[i]).0@,
        rows@[i].1@,
    ) by {}
}

/// The table of the bandwidth.
pub proof fn law_bandwidth_table_is_filled(
    b: BandwidthStats,
    average: &str,
    rows: Vec<(&'static str, String)>,
    second: String,
    minute: String,
    hour: String,
    total: String,
    peak: String,
)
    requires
        call_ensures(bandwidth_rows, (&b, average), rows),
        call_ensures(metrics::format_bytes, (b.bytes_per_second,), second),
        call_ensures(metrics::format_bytes, (b.bytes_per_minute,), minute),
        call_ensures(metrics::format_bytes, (b.bytes_per_hour,), hour),
        call_ensures(metrics::format_bytes, (b.total_bytes,), total),
        call_ensures(metrics::format_bytes, (b.peak_speed,), peak),
    ensures
        rows@.len() == 7,
        rows@[0].0@ == "Current Speed"@ && rows@[0].1@ == second@ + "/s"@,
        rows@[1].0@ == "Per Minute"@ && rows@[1].1@ == minute@,
        rows@[2].0@ == "Per Hour"@ && rows@[2].1@ == hour@,
        rows@[3].0@ == "Total Transferred"@ && rows@[3].1@ == total@,
        rows@[4].0@ == "Average Speed"@ && rows@[4].1@ == average@ + " KB/s"@,
        rows@[5].0@ == "Peak Speed"@ && rows@[5].1@ == peak@ + "/s"@,
        rows@[6].0@ == "Requests Served"@ && rows@[6].1@ == text::decimal(b.requests_served as nat),
{
    let views = row_views(rows@);
    assert(views.len() == rows@.len());
    assert forall|i: int| 0 <= i < rows@.len() implies views[i] == (
        (#[trigger] rows@[i]).0@,
        rows@[i].1@,
    ) by {}
}

}
