//! The protocol spoken with the H@H servers: authenticated request URLs, the
//! replies to them, server settings, server failover and keystamps.
//!
//! Every request is a URL that the client builds and every reply a text that it
//! reads; fetching the one for the other is left to the caller, and so is the
//! clock: `local_time` is the local time in seconds since the epoch.

use crate::config::Config;
use crate::digest;
use crate::text;
use crate::web;
use vstd::prelude::*;
use vstd::utf8::encode_utf8;

verus! {

/// Default RPC host (resolved via DNS for load balancing).
pub const HAH_RPC_HOST: &'static str = "rpc.hentaiathome.net";

pub const HAH_RPC_PROTOCOL: &'static str = "http://";

/// Client build number, compared with the builds that the server names.
pub const CLIENT_BUILD: i32 = 176;

/// How far a keystamp may lie from the server time, in seconds.
pub const KEYSTAMP_WINDOW: i64 = 900;

#[derive(Debug, Clone)]
pub enum ApiError {
    Network(String),
    ServerError(String),
    InvalidResponse(String),
    AuthFailed(String),
}

impl ApiError {
    pub open spec fn message_text(&self) -> Seq<char> {
        match *self {
            ApiError::Network(s) => "Network error: "@ + s@,
            ApiError::ServerError(s) => "Server returned error: "@ + s@,
            ApiError::InvalidResponse(s) => "Invalid response: "@ + s@,
            ApiError::AuthFailed(s) => "Authentication failed: "@ + s@,
        }
    }

    /// The error in words.
    pub fn message(&self) -> (res: String)
        ensures
            res@ == self.message_text(),
    {
        match self {
            ApiError::Network(s) => "Network error: ".to_string().concat(s.as_str()),
            ApiError::ServerError(s) => "Server returned error: ".to_string().concat(s.as_str()),
            ApiError::InvalidResponse(s) => "Invalid response: ".to_string().concat(s.as_str()),
            ApiError::AuthFailed(s) => "Authentication failed: ".to_string().concat(s.as_str()),
        }
    }

    /// The error says that the server answered `reply`.
    pub open spec fn is_server_error(&self, reply: Seq<char>) -> bool {
        match *self {
            ApiError::ServerError(s) => s@ == reply,
            _ => false,
        }
    }

    pub open spec fn is_auth_failure(&self, reply: Seq<char>) -> bool {
        match *self {
            ApiError::AuthFailed(s) => s@ == reply,
            _ => false,
        }
    }

    pub open spec fn is_invalid_response(&self, reply: Seq<char>) -> bool {
        match *self {
            ApiError::InvalidResponse(s) => s@ == reply,
            _ => false,
        }
    }
}

// ---------------------------------------------------------------------------
// Server settings
// ---------------------------------------------------------------------------

/// What the server told the client to work with.
#[derive(Debug)]
pub struct ServerSettings {
    pub min_client_build: i32,
    pub cur_client_build: i32,
    pub max_files_xfer: i32,
    pub max_kb_xfer: i32,
    pub request_server: String,
    pub throttle_bytes: i64,
    pub disable_browse_load: bool,
    pub image_server: String,
    pub name: String,
    pub host: String,
    pub port: u16,
    pub request_valid_base: i64,
    /// RPC server IPs for failover.
    pub rpc_server_ips: Vec<String>,
    /// RPC server port.
    pub rpc_server_port: u16,
    /// Dynamic RPC path from the server.
    pub rpc_path: String,
    /// Static range prefixes assigned to this client (4 bytes each), each once.
    pub static_ranges: Vec<String>,
    /// Number of static ranges assigned.
    pub static_range_count: i32,
    /// Disk limit in bytes.
    pub disk_limit_bytes: u64,
    /// Minimum remaining disk space in bytes.
    pub disk_remaining_bytes: u64,
    /// Filesystem block size.
    pub filesystem_blocksize: u64,
    /// Maximum allowed file size.
    pub max_allowed_filesize: u64,
}

/// The settings as mathematical values; the static ranges form a set.
#[verifier::ext_equal]
pub struct SettingsView {
    pub min_client_build: i32,
    pub cur_client_build: i32,
    pub max_files_xfer: i32,
    pub max_kb_xfer: i32,
    pub request_server: Seq<char>,
    pub throttle_bytes: i64,
    pub disable_browse_load: bool,
    pub image_server: Seq<char>,
    pub name: Seq<char>,
    pub host: Seq<char>,
    pub port: u16,
    pub request_valid_base: i64,
    pub rpc_server_ips: Seq<Seq<char>>,
    pub rpc_server_port: u16,
    pub rpc_path: Seq<char>,
    pub static_ranges: Set<Seq<char>>,
    pub static_range_count: i32,
    pub disk_limit_bytes: u64,
    pub disk_remaining_bytes: u64,
    pub filesystem_blocksize: u64,
    pub max_allowed_filesize: u64,
}

impl View for ServerSettings {
    type V = SettingsView;

    open spec fn view(&self) -> SettingsView {
        SettingsView {
            min_client_build: self.min_client_build,
            cur_client_build: self.cur_client_build,
            max_files_xfer: self.max_files_xfer,
            max_kb_xfer: self.max_kb_xfer,
            request_server: self.request_server@,
            throttle_bytes: self.throttle_bytes,
            disable_browse_load: self.disable_browse_load,
            image_server: self.image_server@,
            name: self.name@,
            host: self.host@,
            port: self.port,
            request_valid_base: self.request_valid_base,
            rpc_server_ips: text::texts(self.rpc_server_ips@),
            rpc_server_port: self.rpc_server_port,
            rpc_path: self.rpc_path@,
            static_ranges: text::texts(self.static_ranges@).to_set(),
            static_range_count: self.static_range_count,
            disk_limit_bytes: self.disk_limit_bytes,
            disk_remaining_bytes: self.disk_remaining_bytes,
            filesystem_blocksize: self.filesystem_blocksize,
            max_allowed_filesize: self.max_allowed_filesize,
        }
    }
}

impl ServerSettings {
    /// No static range is listed twice.
    pub open spec fn wf(&self) -> bool {
        text::texts(self.static_ranges@).no_duplicates()
    }

    /// The settings before the server has sent any.
    pub open spec fn initial() -> SettingsView {
        SettingsView {
            min_client_build: 0,
            cur_client_build: 0,
            max_files_xfer: 20,
            max_kb_xfer: 100000,
            request_server: Seq::empty(),
            throttle_bytes: -1i64,
            disable_browse_load: false,
            image_server: Seq::empty(),
            name: Seq::empty(),
            host: Seq::empty(),
            port: 8080,
            request_valid_base: 0,
            rpc_server_ips: Seq::empty(),
            rpc_server_port: 80,
            rpc_path: "15/rpc?"@,
            static_ranges: Set::empty(),
            static_range_count: 0,
            disk_limit_bytes: 0,
            disk_remaining_bytes: 0,
            filesystem_blocksize: 4096,
            max_allowed_filesize: 1073741824,
        }
    }
}

impl Default for ServerSettings {
    fn default() -> (r: Self)
        ensures
            r@ == ServerSettings::initial(),
            r.wf(),
    {
        let r = ServerSettings {
            min_client_build: 0,
            cur_client_build: 0,
            max_files_xfer: 20,
            max_kb_xfer: 100000,
            request_server: String::new(),
            throttle_bytes: -1,
            disable_browse_load: false,
            image_server: String::new(),
            name: String::new(),
            host: String::new(),
            port: 8080,
            request_valid_base: 0,
            rpc_server_ips: Vec::new(),
            rpc_server_port: 80,
            rpc_path: "15/rpc?".to_string(),
            static_ranges: Vec::new(),
            static_range_count: 0,
            disk_limit_bytes: 0,
            disk_remaining_bytes: 0,
            filesystem_blocksize: 4096,
            max_allowed_filesize: 1073741824,
        };
        proof {
            assert(r@.static_ranges =~= Set::empty());
        }
        r
    }
}

impl Clone for ServerSettings {
    fn clone(&self) -> (r: Self)
        ensures
            r@ == self@,
            r.wf() == self.wf(),
    {
        let r = ServerSettings {
            min_client_build: self.min_client_build,
            cur_client_build: self.cur_client_build,
            max_files_xfer: self.max_files_xfer,
            max_kb_xfer: self.max_kb_xfer,
            request_server: self.request_server.clone(),
            throttle_bytes: self.throttle_bytes,
            disable_browse_load: self.disable_browse_load,
            image_server: self.image_server.clone(),
            name: self.name.clone(),
            host: self.host.clone(),
            port: self.port,
            request_valid_base: self.request_valid_base,
            rpc_server_ips: self.rpc_server_ips.clone(),
            rpc_server_port: self.rpc_server_port,
            rpc_path: self.rpc_path.clone(),
            static_ranges: self.static_ranges.clone(),
            static_range_count: self.static_range_count,
            disk_limit_bytes: self.disk_limit_bytes,
            disk_remaining_bytes: self.disk_remaining_bytes,
            filesystem_blocksize: self.filesystem_blocksize,
            max_allowed_filesize: self.max_allowed_filesize,
        };
        proof {
            assert(text::texts(r.rpc_server_ips@) =~= text::texts(self.rpc_server_ips@));
            assert(text::texts(r.static_ranges@) =~= text::texts(self.static_ranges@));
        }
        r
    }
}

/// A file that is asked for.
#[derive(Debug, Clone)]
pub struct FileRequest {
    pub file_id: String,
    pub file_key: String,
    pub file_hash: String,
    pub file_size: u64,
}

// ---------------------------------------------------------------------------
// Reading `key=value` lines
// ---------------------------------------------------------------------------

/// The value that the last `key=value` line gives to `key`.
pub open spec fn param(lines: Seq<Seq<char>>, key: Seq<char>) -> Option<Seq<char>>
    decreases lines.len(),
{
    if lines.len() == 0 {
        None
    } else {
        match text::split_once(lines.last(), '=') {
            Some((k, v)) => if k == key {
                Some(v)
            } else {
                param(lines.drop_last(), key)
            },
            None => param(lines.drop_last(), key),
        }
    }
}

/// A parameter that is a number: `absent` where it is not sent, `invalid` where
/// it is no number between `min` and `max`.
pub open spec fn number_param(
    value: Option<Seq<char>>,
    min: int,
    max: int,
    invalid: int,
    absent: int,
) -> int {
    match value {
        Some(v) => match text::parsed_signed(v, min, max) {
            Some(i) => i,
            None => invalid,
        },
        None => absent,
    }
}

/// As `number_param`, without a sign.
pub open spec fn unsigned_param(
    value: Option<Seq<char>>,
    max: int,
    invalid: int,
    absent: int,
) -> int {
    match value {
        Some(v) => match text::parsed_unsigned(v, max) {
            Some(i) => i,
            None => invalid,
        },
        None => absent,
    }
}

/// A parameter that is a text.
pub open spec fn text_param(value: Option<Seq<char>>, absent: Seq<char>) -> Seq<char> {
    match value {
        Some(v) => v,
        None => absent,
    }
}

/// The parts that are not empty, in order.
pub open spec fn non_empty(parts: Seq<Seq<char>>) -> Seq<Seq<char>>
    decreases parts.len(),
{
    if parts.len() == 0 {
        Seq::empty()
    } else if parts.last().len() == 0 {
        non_empty(parts.drop_last())
    } else {
        non_empty(parts.drop_last()).push(parts.last())
    }
}

/// The parts that take four bytes.
pub open spec fn four_byte_parts(parts: Seq<Seq<char>>) -> Set<Seq<char>>
    decreases parts.len(),
{
    if parts.len() == 0 {
        Set::empty()
    } else if text::byte_len(parts.last()) == 4 {
        four_byte_parts(parts.drop_last()).insert(parts.last())
    } else {
        four_byte_parts(parts.drop_last())
    }
}

/// The settings that a reply leads to, from those that held before.
pub open spec fn read_settings(
    before: SettingsView,
    lines: Seq<Seq<char>>,
    config_port: u16,
) -> SettingsView {
    let static_ranges = match param(lines, "static_ranges"@) {
        Some(v) => four_byte_parts(text::split(v, ';')),
        None => before.static_ranges,
    };
    let counted = match param(lines, "static_ranges"@) {
        Some(v) => static_ranges.len() as i32,
        None => before.static_range_count,
    };
    SettingsView {
        min_client_build: number_param(
            param(lines, "min_client_build"@),
            i32::MIN as int,
            i32::MAX as int,
            0,
            before.min_client_build as int,
        ) as i32,
        cur_client_build: number_param(
            param(lines, "cur_client_build"@),
            i32::MIN as int,
            i32::MAX as int,
            0,
            before.cur_client_build as int,
        ) as i32,
        max_files_xfer: number_param(
            param(lines, "max_files_xfer"@),
            i32::MIN as int,
            i32::MAX as int,
            20,
            before.max_files_xfer as int,
        ) as i32,
        max_kb_xfer: number_param(
            param(lines, "max_kb_xfer"@),
            i32::MIN as int,
            i32::MAX as int,
            100000,
            before.max_kb_xfer as int,
        ) as i32,
        request_server: before.request_server,
        throttle_bytes: number_param(
            param(lines, "throttle_bytes"@),
            i64::MIN as int,
            i64::MAX as int,
            -1,
            before.throttle_bytes as int,
        ) as i64,
        disable_browse_load: match param(lines, "disableBrowseLoad"@) {
            Some(v) => v == "1"@,
            None => before.disable_browse_load,
        },
        image_server: text_param(param(lines, "image_server"@), before.image_server),
        name: text_param(param(lines, "name"@), before.name),
        host: text_param(param(lines, "host"@), before.host),
        port: unsigned_param(
            param(lines, "port"@),
            u16::MAX as int,
            config_port as int,
            before.port as int,
        ) as u16,
        request_valid_base: number_param(
            param(lines, "request_valid_base"@),
            i64::MIN as int,
            i64::MAX as int,
            0,
            before.request_valid_base as int,
        ) as i64,
        rpc_server_ips: match param(lines, "rpc_server_ip"@) {
            Some(v) => non_empty(text::split(v, ';')),
            None => before.rpc_server_ips,
        },
        rpc_server_port: unsigned_param(
            param(lines, "rpc_server_port"@),
            u16::MAX as int,
            80,
            before.rpc_server_port as int,
        ) as u16,
        rpc_path: text_param(param(lines, "rpc_path"@), before.rpc_path),
        static_ranges,
        static_range_count: number_param(
            param(lines, "static_range_count"@),
            i32::MIN as int,
            i32::MAX as int,
            counted as int,
            counted as int,
        ) as i32,
        disk_limit_bytes: unsigned_param(
            param(lines, "disklimit_bytes"@),
            u64::MAX as int,
            0,
            before.disk_limit_bytes as int,
        ) as u64,
        disk_remaining_bytes: unsigned_param(
            param(lines, "diskremaining_bytes"@),
            u64::MAX as int,
            0,
            before.disk_remaining_bytes as int,
        ) as u64,
        filesystem_blocksize: unsigned_param(
            param(lines, "filesystem_blocksize"@),
            u64::MAX as int,
            4096,
            before.filesystem_blocksize as int,
        ) as u64,
        max_allowed_filesize: unsigned_param(
            param(lines, "max_allowed_filesize"@),
            u64::MAX as int,
            1073741824,
            before.max_allowed_filesize as int,
        ) as u64,
    }
}

/// The minimum build that a reply asks for, where this client is older.
pub open spec fn build_refused(lines: Seq<Seq<char>>) -> Option<i32> {
    match param(lines, "min_client_build"@) {
        Some(v) => {
            let build = number_param(Some(v), i32::MIN as int, i32::MAX as int, 0, 0);
            if build > CLIENT_BUILD {
                Some(build as i32)
            } else {
                None
            }
        },
        None => None,
    }
}

/// The value that the last `key=value` line gives to `key`.
pub fn param_of(lines: &Vec<String>, key: &str) -> (r: Option<String>)
    ensures
        web::optional_text(r) == param(text::texts(lines@), key@),
{
    let mut n: usize = lines.len();
    proof {
        assert(text::texts(lines@).take(n as int) =~= text::texts(lines@));
    }
    while n > 0
        invariant
            n <= lines.len(),
            param(text::texts(lines@), key@) == param(text::texts(lines@).take(n as int), key@),
        decreases n,
    {
        proof {
            let seen = text::texts(lines@).take(n as int);
            assert(seen.drop_last() =~= text::texts(lines@).take(n - 1));
            assert(seen.last() == lines@[n - 1]@);
        }
        match text::split_text_once(lines[n - 1].as_str(), '=') {
            Some((k, v)) => {
                if text::same(k.as_str(), key) {
                    return Some(v);
                }
            },
            None => {},
        }
        n = n - 1;
    }
    None
}

/// A parameter that is a number from `min` to `max`.
fn number_of(lines: &Vec<String>, key: &str, min: i64, max: i64, invalid: i64, absent: i64) -> (r:
    i64)
    requires
        min <= 0 <= max,
        min <= invalid <= max,
        min <= absent <= max,
    ensures
        r == number_param(
            param(text::texts(lines@), key@),
            min as int,
            max as int,
            invalid as int,
            absent as int,
        ),
        min <= r <= max,
{
    match param_of(lines, key) {
        Some(v) => match text::parse_signed(v.as_str(), min, max) {
            Some(i) => i,
            None => invalid,
        },
        None => absent,
    }
}

/// A parameter that is a number up to `max`.
fn unsigned_of(lines: &Vec<String>, key: &str, max: u64, invalid: u64, absent: u64) -> (r: u64)
    requires
        invalid <= max,
        absent <= max,
    ensures
        r == unsigned_param(
            param(text::texts(lines@), key@),
            max as int,
            invalid as int,
            absent as int,
        ),
        r <= max,
{
    match param_of(lines, key) {
        Some(v) => match text::parse_unsigned(v.as_str(), max) {
            Some(i) => i,
            None => invalid,
        },
        None => absent,
    }
}

fn text_of(lines: &Vec<String>, key: &str, absent: &String) -> (r: String)
    ensures
        r@ == text_param(param(text::texts(lines@), key@), absent@),
{
    match param_of(lines, key) {
        Some(v) => v,
        None => absent.clone(),
    }
}

fn non_empty_parts(v: &str) -> (r: Vec<String>)
    ensures
        text::texts(r@) == non_empty(text::split(v@, ';')),
{
    let parts = text::split_text(v, ';');
    let mut r: Vec<String> = Vec::new();
    let mut i: usize = 0;
    proof {
        assert(text::texts(r@) =~= non_empty(text::texts(parts@).take(0)));
    }
    while i < parts.len()
        invariant
            i <= parts.len(),
            text::texts(r@) == non_empty(text::texts(parts@).take(i as int)),
        decreases parts.len() - i,
    {
        let ghost before = text::texts(r@);
        proof {
            let seen = text::texts(parts@).take(i + 1);
            assert(seen.drop_last() =~= text::texts(parts@).take(i as int));
            assert(seen.last() == parts@[i as int]@);
        }
        if !parts[i].as_str().is_empty() {
            r.push(parts[i].clone());
            proof {
                assert(text::texts(r@) =~= before.push(parts@[i as int]@));
            }
        }
        i = i + 1;
    }
    proof {
        assert(text::texts(parts@).take(i as int) =~= text::texts(parts@));
    }
    r
}

fn four_byte_ranges(v: &str) -> (r: Vec<String>)
    ensures
        text::texts(r@).to_set() == four_byte_parts(text::split(v@, ';')),
        text::texts(r@).no_duplicates(),
{
    let parts = text::split_text(v, ';');
    let mut r: Vec<String> = Vec::new();
    let mut i: usize = 0;
    proof {
        assert(text::texts(r@).to_set() =~= four_byte_parts(text::texts(parts@).take(0)));
    }
    while i < parts.len()
        invariant
            i <= parts.len(),
            text::texts(r@).to_set() == four_byte_parts(text::texts(parts@).take(i as int)),
            text::texts(r@).no_duplicates(),
        decreases parts.len() - i,
    {
        let ghost before = text::texts(r@);
        proof {
            let seen = text::texts(parts@).take(i + 1);
            assert(seen.drop_last() =~= text::texts(parts@).take(i as int));
            assert(seen.last() == parts@[i as int]@);
        }
        if text::byte_length(parts[i].as_str()) == 4 {
            if !text::is_listed(&r, parts[i].as_str()) {
                r.push(parts[i].clone());
                proof {
                    let part = parts@[i as int]@;
                    assert(text::texts(r@) =~= before.push(part));
                    text::lemma_push_to_set(before, part);
                }
            } else {
                proof {
                    let part = parts@[i as int]@;
                    assert(before.to_set().insert(part) =~= before.to_set());
                }
            }
        }
        i = i + 1;
    }
    proof {
        assert(text::texts(parts@).take(i as int) =~= text::texts(parts@));
    }
    r
}

// ---------------------------------------------------------------------------
// The client
// ---------------------------------------------------------------------------

/// The client's side of the protocol.
pub struct HahApiClient {
    pub config: Config,
    pub server_settings: ServerSettings,
    /// Server time delta for clock synchronization.
    pub server_time_delta: i32,
    /// Current RPC server (for failover).
    pub current_rpc_server: Option<String>,
    /// Last failed RPC server (to avoid immediately retrying).
    pub last_failed_rpc_server: Option<String>,
}

/// What came of a reply to a login request.
pub enum LoginStep {
    /// The client is logged in with these settings.
    LoggedIn(ServerSettings),
    /// The key had expired: ask for the server's statistics, which sets the
    /// clock, and log in once more.
    RefreshTime,
}

/// The host, with the port where it is not the usual one.
pub open spec fn host_with_port(host: Seq<char>, port: u16) -> Seq<char> {
    if port == 80 {
        host
    } else {
        host + ":"@ + text::decimal(port as nat)
    }
}

/// The first server that is not the failed one.
pub open spec fn first_other(ips: Seq<Seq<char>>, failed: Option<Seq<char>>) -> Option<Seq<char>>
    decreases ips.len(),
{
    if ips.len() == 0 {
        None
    } else if failed != Some(ips.first()) {
        Some(ips.first())
    } else {
        first_other(ips.drop_first(), failed)
    }
}

/// The server that is current once a host has been asked for.
pub open spec fn selected_server(
    current: Option<Seq<char>>,
    ips: Seq<Seq<char>>,
    failed: Option<Seq<char>>,
) -> Option<Seq<char>> {
    if current is Some {
        current
    } else if ips.len() == 0 {
        None
    } else if first_other(ips, failed) is Some {
        first_other(ips, failed)
    } else {
        Some(ips.first())
    }
}

/// The host to send a request to. A server that is tried again for want of
/// another is named without its port.
pub open spec fn rpc_host(
    current: Option<Seq<char>>,
    ips: Seq<Seq<char>>,
    failed: Option<Seq<char>>,
    port: u16,
) -> Seq<char> {
    if current is Some {
        host_with_port(current->0, port)
    } else if ips.len() == 0 {
        HAH_RPC_HOST@
    } else if first_other(ips, failed) is Some {
        host_with_port(first_other(ips, failed)->0, port)
    } else {
        ips.first()
    }
}

/// The path of RPC requests, as the server set it.
pub open spec fn rpc_path_text(path: Seq<char>) -> Seq<char> {
    if path.len() == 0 {
        "/15/rpc?"@
    } else {
        "/"@ + path
    }
}

/// What is hashed to authenticate a request.
pub open spec fn auth_input(
    action: Seq<char>,
    additional: Seq<char>,
    client_id: Seq<char>,
    time: int,
    client_key: Seq<char>,
) -> Seq<char> {
    "hentai@home-"@ + action + "-"@ + additional + "-"@ + client_id + "-"@ + text::decimal_int(time)
        + "-"@ + client_key
}

/// The hash that authenticates a request.
pub open spec fn auth_key(
    action: Seq<char>,
    additional: Seq<char>,
    client_id: Seq<char>,
    time: int,
    client_key: Seq<char>,
) -> Seq<char> {
    digest::sha1_hex(encode_utf8(auth_input(action, additional, client_id, time, client_key)))
}

/// An authenticated request to `path` on `host`.
pub open spec fn request_text(
    host: Seq<char>,
    path: Seq<char>,
    action: Seq<char>,
    additional: Seq<char>,
    client_id: Seq<char>,
    time: int,
    client_key: Seq<char>,
) -> Seq<char> {
    HAH_RPC_PROTOCOL@ + host + path + "clientbuild="@ + text::decimal_int(CLIENT_BUILD as int)
        + "&act="@ + action + "&add="@ + additional + "&cid="@ + client_id + "&acttime="@
        + text::decimal_int(time) + "&actkey="@ + auth_key(
        action,
        additional,
        client_id,
        time,
        client_key,
    )
}

impl HahApiClient {
    /// The server time can be told: the sum with the delta fits.
    pub open spec fn tells_time(&self, local_time: i64) -> bool {
        i64::MIN <= local_time + self.server_time_delta <= i64::MAX
    }

    pub open spec fn server_time(&self, local_time: i64) -> int {
        local_time + self.server_time_delta
    }

    pub open spec fn current(&self) -> Option<Seq<char>> {
        web::optional_text(self.current_rpc_server)
    }

    pub open spec fn last_failed(&self) -> Option<Seq<char>> {
        web::optional_text(self.last_failed_rpc_server)
    }

    /// The host that the next request goes to.
    pub open spec fn next_host(&self) -> Seq<char> {
        rpc_host(
            self.current(),
            self.server_settings@.rpc_server_ips,
            self.last_failed(),
            self.server_settings.rpc_server_port,
        )
    }

    /// The server that is current once the next request is on its way.
    pub open spec fn next_server(&self) -> Option<Seq<char>> {
        selected_server(
            self.current(),
            self.server_settings@.rpc_server_ips,
            self.last_failed(),
        )
    }

    /// The RPC request for an action.
    pub open spec fn rpc_request(
        &self,
        action: Seq<char>,
        additional: Seq<char>,
        local_time: i64,
    ) -> Seq<char> {
        request_text(
            self.next_host(),
            rpc_path_text(self.server_settings.rpc_path@),
            action,
            additional,
            self.config.client_id@,
            self.server_time(local_time),
            self.config.client_key@,
        )
    }

    /// Nothing but the current server differs, which is the one that `before`
    /// would select.
    pub open spec fn after_request(&self, before: &HahApiClient) -> bool {
        &&& self.current() == before.next_server()
        &&& *self == (HahApiClient { current_rpc_server: self.current_rpc_server, ..*before })
    }

    pub fn new(config: Config) -> (r: Self)
        ensures
            r.config == config,
            r.server_settings@ == ServerSettings::initial(),
            r.server_settings.wf(),
            r.server_time_delta == 0,
            r.current_rpc_server is None,
            r.last_failed_rpc_server is None,
    {
        HahApiClient {
            config,
            server_settings: ServerSettings::default(),
            server_time_delta: 0,
            current_rpc_server: None,
            last_failed_rpc_server: None,
        }
    }

    /// Get the current server time (adjusted by delta).
    pub fn get_server_time(&self, local_time: i64) -> (t: i64)
        requires
            self.tells_time(local_time),
        ensures
            t == self.server_time(local_time),
    {
        local_time + self.server_time_delta as i64
    }

    /// Set the server time delta from a time that the server sent.
    pub fn set_server_time(&mut self, server_time: i64, local_time: i64)
        ensures
            *final(self) == (HahApiClient {
                server_time_delta: server_time.wrapping_sub(local_time) as i32,
                ..*old(self)
            }),
    {
        self.server_time_delta = #[verifier::truncate] (server_time.wrapping_sub(local_time) as i32);
    }

    /// Get the current RPC server host with failover support.
    pub fn get_rpc_server_host(&mut self) -> (host: String)
        ensures
            host@ == old(self).next_host(),
            final(self).after_request(old(self)),
    {
        let port: u16 = self.server_settings.rpc_server_port;
        if let Some(server) = &self.current_rpc_server {
            return Self::with_port(server.as_str(), port);
        }
        if self.server_settings.rpc_server_ips.len() == 0 {
            return HAH_RPC_HOST.to_string();
        }
        let ghost ips = self.server_settings@.rpc_server_ips;
        let ghost failed = self.last_failed();
        let mut i: usize = 0;
        proof {
            assert(ips.skip(0) =~= ips);
        }
        while i < self.server_settings.rpc_server_ips.len()
            invariant
                i <= self.server_settings.rpc_server_ips.len(),
                *self == *old(self),
                self.current_rpc_server is None,
                ips == self.server_settings@.rpc_server_ips,
                failed == self.last_failed(),
                ips.len() > 0,
                port == self.server_settings.rpc_server_port,
                first_other(ips, failed) == first_other(ips.skip(i as int), failed),
            decreases self.server_settings.rpc_server_ips.len() - i,
        {
            proof {
                assert(ips.skip(i as int).drop_first() =~= ips.skip(i + 1));
                assert(ips.skip(i as int).first() == self.server_settings.rpc_server_ips@[i as int]@);
            }
            let is_failed = match &self.last_failed_rpc_server {
                Some(server) => text::same(
                    server.as_str(),
                    self.server_settings.rpc_server_ips[i].as_str(),
                ),
                None => false,
            };
            if !is_failed {
                let ip = self.server_settings.rpc_server_ips[i].clone();
                let host = Self::with_port(ip.as_str(), port);
                self.current_rpc_server = Some(ip);
                return host;
            }
            i = i + 1;
        }
        let server = self.server_settings.rpc_server_ips[0].clone();
        self.current_rpc_server = Some(server.clone());
        server
    }

    fn with_port(host: &str, port: u16) -> (r: String)
        ensures
            r@ == host_with_port(host@, port),
    {
        let mut r = host.to_string();
        if port != 80 {
            r.append(":");
            r.append(text::decimal_of(port as u64).as_str());
        }
        r
    }

    /// Mark the current RPC server as failed (triggers failover).
    pub fn mark_rpc_server_failed(&mut self, host: &str)
        ensures
            *final(self) == (if old(self).current() is Some && text::contains(
                old(self).current()->0,
                host@,
            ) {
                HahApiClient {
                    current_rpc_server: None,
                    last_failed_rpc_server: old(self).current_rpc_server,
                    ..*old(self)
                }
            } else {
                *old(self)
            }),
    {
        let named = match &self.current_rpc_server {
            Some(server) => text::has_substring(server.as_str(), host),
            None => false,
        };
        if named {
            self.last_failed_rpc_server = self.current_rpc_server.take();
        }
    }

    /// Clear the RPC server failure status.
    pub fn clear_rpc_server_failure(&mut self)
        ensures
            *final(self) == (if old(self).last_failed_rpc_server is Some {
                HahApiClient {
                    current_rpc_server: None,
                    last_failed_rpc_server: None,
                    ..*old(self)
                }
            } else {
                *old(self)
            }),
    {
        if self.last_failed_rpc_server.is_some() {
            self.last_failed_rpc_server = None;
            self.current_rpc_server = None;
        }
    }

    /// Generate the authentication hash for API requests, with the time it is for.
    pub fn generate_auth(&self, action: &str, additional: &str, local_time: i64) -> (r: (
        i64,
        String,
    ))
        requires
            self.tells_time(local_time),
        ensures
            r.0 == self.server_time(local_time),
            r.1@ == auth_key(
                action@,
                additional@,
                self.config.client_id@,
                self.server_time(local_time),
                self.config.client_key@,
            ),
            r.1@ == digest::hex_of(
                digest::sha1_of(
                    encode_utf8(
                        "hentai@home-"@ + action@ + "-"@ + additional@ + "-"@
                            + self.config.client_id@ + "-"@ + text::decimal_int(
                            local_time + self.server_time_delta,
                        ) + "-"@ + self.config.client_key@,
                    ),
                ),
            ),
    {
        let time: i64 = self.get_server_time(local_time);
        let mut input = "hentai@home-".to_string();
        input.append(action);
        input.append("-");
        input.append(additional);
        input.append("-");
        input.append(self.config.client_id.as_str());
        input.append("-");
        input.append(text::decimal_of_int(time).as_str());
        input.append("-");
        input.append(self.config.client_key.as_str());
        let hash = digest::sha1_hex_of(input.as_str().as_bytes());
        (time, hash)
    }

    fn path(&self) -> (r: String)
        ensures
            r@ == rpc_path_text(self.server_settings.rpc_path@),
    {
        if self.server_settings.rpc_path.as_str().is_empty() {
            "/15/rpc?".to_string()
        } else {
            "/".to_string().concat(self.server_settings.rpc_path.as_str())
        }
    }

    fn request(&mut self, path: &str, action: &str, additional: &str, local_time: i64) -> (url:
        String)
        requires
            old(self).tells_time(local_time),
        ensures
            url@ == request_text(
                old(self).next_host(),
                path@,
                action@,
                additional@,
                old(self).config.client_id@,
                old(self).server_time(local_time),
                old(self).config.client_key@,
            ),
            final(self).after_request(old(self)),
    {
        let (time, hash) = self.generate_auth(action, additional, local_time);
        let host = self.get_rpc_server_host();
        let mut url = HAH_RPC_PROTOCOL.to_string();
        url.append(host.as_str());
        url.append(path);
        url.append("clientbuild=");
        url.append(text::decimal_of_int(CLIENT_BUILD as i64).as_str());
        url.append("&act=");
        url.append(action);
        url.append("&add=");
        url.append(additional);
        url.append("&cid=");
        url.append(self.config.client_id.as_str());
        url.append("&acttime=");
        url.append(text::decimal_of_int(time).as_str());
        url.append("&actkey=");
        url.append(hash.as_str());
        url
    }

    /// Build the URL for an API request.
    pub fn build_url(&mut self, action: &str, additional: &str, local_time: i64) -> (url: String)
        requires
            old(self).tells_time(local_time),
        ensures
            url@ == old(self).rpc_request(action@, additional@, local_time),
            final(self).after_request(old(self)),
    {
        let path = self.path();
        self.request(path.as_str(), action, additional, local_time)
    }

    /// Build the URL for the download queue API.
    pub fn build_download_url(&mut self, action: &str, additional: &str, local_time: i64) -> (url:
        String)
        requires
            old(self).tells_time(local_time),
        ensures
            url@ == request_text(
                old(self).next_host(),
                "/15/dl?"@,
                action@,
                additional@,
                old(self).config.client_id@,
                old(self).server_time(local_time),
                old(self).config.client_key@,
            ),
            final(self).after_request(old(self)),
    {
        self.request("/15/dl?", action, additional, local_time)
    }

    /// Build the URL for server statistics (doesn't require authentication).
    pub fn build_server_stat_url(&mut self) -> (url: String)
        ensures
            url@ == HAH_RPC_PROTOCOL@ + old(self).next_host() + rpc_path_text(
                old(self).server_settings.rpc_path@,
            ) + "clientbuild="@ + text::decimal_int(CLIENT_BUILD as int) + "&act=server_stat"@,
            final(self).after_request(old(self)),
    {
        let host = self.get_rpc_server_host();
        let path = self.path();
        let mut url = HAH_RPC_PROTOCOL.to_string();
        url.append(host.as_str());
        url.append(path.as_str());
        url.append("clientbuild=");
        url.append(text::decimal_of_int(CLIENT_BUILD as i64).as_str());
        url.append("&act=server_stat");
        url
    }
}

// ---------------------------------------------------------------------------
// Settings and statistics sent by the server
// ---------------------------------------------------------------------------

/// The time delta once the server has named its time, where it named one.
pub open spec fn delta_after(value: Option<Seq<char>>, before: i32, local_time: i64) -> i32 {
    match value {
        Some(v) => match text::parsed_signed(v, i64::MIN as int, i64::MAX as int) {
            Some(t) => (t as i64).wrapping_sub(local_time) as i32,
            None => before,
        },
        None => before,
    }
}

/// The refusal of a reply to a login that asks for a newer build.
pub open spec fn too_old_text(build: i32) -> Seq<char> {
    "Client too old. Required build: "@ + text::decimal_int(build as int) + ", current: "@
        + text::decimal_int(CLIENT_BUILD as int)
}

impl HahApiClient {
    fn note_server_time(&mut self, value: &Option<String>, local_time: i64)
        ensures
            *final(self) == (HahApiClient {
                server_time_delta: delta_after(
                    web::optional_text(*value),
                    old(self).server_time_delta,
                    local_time,
                ),
                ..*old(self)
            }),
    {
        if let Some(v) = value {
            if let Some(server_time) = text::parse_signed(v.as_str(), i64::MIN, i64::MAX) {
                self.set_server_time(server_time, local_time);
            }
        }
    }

    /// Parse server settings from a login reply.
    pub fn parse_server_settings(&mut self, response: &str, local_time: i64) -> (r: Result<
        ServerSettings,
        ApiError,
    >)
        ensures
            *final(self) == (HahApiClient {
                server_time_delta: delta_after(
                    param(text::lines(response@), "server_time"@),
                    old(self).server_time_delta,
                    local_time,
                ),
                ..*old(self)
            }),
            match r {
                Ok(settings) => {
                    &&& build_refused(text::lines(response@)) is None
                    &&& settings@ == read_settings(
                        old(self).server_settings@,
                        text::lines(response@),
                        old(self).config.port,
                    )
                    &&& old(self).server_settings.wf() ==> settings.wf()
                },
                Err(e) => {
                    &&& build_refused(text::lines(response@)) is Some
                    &&& e.is_server_error(
                        too_old_text(build_refused(text::lines(response@))->0),
                    )
                },
            },
    {
        let lines = text::lines_of(response);
        let server_time = param_of(&lines, "server_time");
        self.note_server_time(&server_time, local_time);

        let min: i64 = i32::MIN as i64;
        let max: i64 = i32::MAX as i64;
        let min_client_build: i64 = number_of(
            &lines,
            "min_client_build",
            min,
            max,
            0,
            self.server_settings.min_client_build as i64,
        );
        if param_of(&lines, "min_client_build").is_some() && min_client_build
            > CLIENT_BUILD as i64 {
            let mut message = "Client too old. Required build: ".to_string();
            message.append(text::decimal_of_int(min_client_build).as_str());
            message.append(", current: ");
            message.append(text::decimal_of_int(CLIENT_BUILD as i64).as_str());
            return Err(ApiError::ServerError(message));
        }
        Ok(self.settings_from(&lines))
    }

    fn settings_from(&self, lines: &Vec<String>) -> (settings: ServerSettings)
        ensures
            settings@ == read_settings(
                self.server_settings@,
                text::texts(lines@),
                self.config.port,
            ),
            self.server_settings.wf() ==> settings.wf(),
    {
        let before = self.server_settings.clone();
        let min: i64 = i32::MIN as i64;
        let max: i64 = i32::MAX as i64;
        let port_max: u64 = u16::MAX as u64;
        let rpc_server_ips = match param_of(lines, "rpc_server_ip") {
            Some(v) => non_empty_parts(v.as_str()),
            None => before.rpc_server_ips,
        };
        let mut counted: i32 = before.static_range_count;
        let static_ranges = match param_of(lines, "static_ranges") {
            Some(v) => {
                let ranges = four_byte_ranges(v.as_str());
                proof {
                    text::texts(ranges@).unique_seq_to_set();
                }
                counted = #[verifier::truncate] (ranges.len() as i32);
                ranges
            },
            None => before.static_ranges,
        };
        let disable_browse_load = match param_of(lines, "disableBrowseLoad") {
            Some(v) => text::same(v.as_str(), "1"),
            None => before.disable_browse_load,
        };
        ServerSettings {
            min_client_build: number_of(
                lines,
                "min_client_build",
                min,
                max,
                0,
                before.min_client_build as i64,
            ) as i32,
            cur_client_build: number_of(
                lines,
                "cur_client_build",
                min,
                max,
                0,
                before.cur_client_build as i64,
            ) as i32,
            max_files_xfer: number_of(
                lines,
                "max_files_xfer",
                min,
                max,
                20,
                before.max_files_xfer as i64,
            ) as i32,
            max_kb_xfer: number_of(
                lines,
                "max_kb_xfer",
                min,
                max,
                100000,
                before.max_kb_xfer as i64,
            ) as i32,
            request_server: before.request_server,
            throttle_bytes: number_of(
                lines,
                "throttle_bytes",
                i64::MIN,
                i64::MAX,
                -1,
                before.throttle_bytes,
            ),
            disable_browse_load,
            image_server: text_of(lines, "image_server", &before.image_server),
            name: text_of(lines, "name", &before.name),
            host: text_of(lines, "host", &before.host),
            port: unsigned_of(
                lines,
                "port",
                port_max,
                self.config.port as u64,
                before.port as u64,
            ) as u16,
            request_valid_base: number_of(
                lines,
                "request_valid_base",
                i64::MIN,
                i64::MAX,
                0,
                before.request_valid_base,
            ),
            rpc_server_ips,
            rpc_server_port: unsigned_of(
                lines,
                "rpc_server_port",
                port_max,
                80,
                before.rpc_server_port as u64,
            ) as u16,
            rpc_path: text_of(lines, "rpc_path", &before.rpc_path),
            static_ranges,
            static_range_count: number_of(
                lines,
                "static_range_count",
                min,
                max,
                counted as i64,
                counted as i64,
            ) as i32,
            disk_limit_bytes: unsigned_of(
                lines,
                "disklimit_bytes",
                u64::MAX,
                0,
                before.disk_limit_bytes,
            ),
            disk_remaining_bytes: unsigned_of(
                lines,
                "diskremaining_bytes",
                u64::MAX,
                0,
                before.disk_remaining_bytes,
            ),
            filesystem_blocksize: unsigned_of(
                lines,
                "filesystem_blocksize",
                u64::MAX,
                4096,
                before.filesystem_blocksize,
            ),
            max_allowed_filesize: unsigned_of(
                lines,
                "max_allowed_filesize",
                u64::MAX,
                1073741824,
                before.max_allowed_filesize,
            ),
        }
    }
}

/// What the server's statistics can change.
#[verifier::ext_equal]
pub struct StatView {
    pub delta: i32,
    pub ips: Seq<Seq<char>>,
    pub port: u16,
    pub path: Seq<char>,
}

/// One `key=value` line of the statistics. Keys are read in lower case; what is
/// no number leaves things as they are.
pub open spec fn stat_line(v: StatView, line: Seq<char>, local_time: i64) -> StatView {
    match text::split_once(line, '=') {
        Some((k, value)) => {
            let key = text::lowercase(k);
            if key == "server_time"@ {
                StatView { delta: delta_after(Some(value), v.delta, local_time), ..v }
            } else if key == "rpc_server_ip"@ {
                StatView { ips: non_empty(text::split(value, ';')), ..v }
            } else if key == "rpc_server_port"@ {
                StatView {
                    port: match text::parsed_unsigned(value, u16::MAX as int) {
                        Some(p) => p as u16,
                        None => v.port,
                    },
                    ..v
                }
            } else if key == "rpc_path"@ {
                StatView { path: value, ..v }
            } else {
                v
            }
        },
        None => v,
    }
}

/// The build that a line of the statistics asks for, where this client is older.
pub open spec fn stat_line_refuses(line: Seq<char>) -> Option<i32> {
    match text::split_once(line, '=') {
        Some((k, value)) => if text::lowercase(k) == "min_client_build"@ {
            match text::parsed_signed(value, i32::MIN as int, i32::MAX as int) {
                Some(build) => if build > CLIENT_BUILD {
                    Some(build as i32)
                } else {
                    None
                },
                None => None,
            }
        } else {
            None
        },
        None => None,
    }
}

/// The lines up to the first that refuses this client, taken in turn.
pub open spec fn stat_lines(v: StatView, lines: Seq<Seq<char>>, local_time: i64) -> StatView
    decreases lines.len(),
{
    if lines.len() == 0 || stat_line_refuses(lines.first()) is Some {
        v
    } else {
        stat_lines(stat_line(v, lines.first(), local_time), lines.drop_first(), local_time)
    }
}

/// The build that the first refusing line asks for.
pub open spec fn stat_refused(lines: Seq<Seq<char>>) -> Option<i32>
    decreases lines.len(),
{
    if lines.len() == 0 {
        None
    } else if stat_line_refuses(lines.first()) is Some {
        stat_line_refuses(lines.first())
    } else {
        stat_refused(lines.drop_first())
    }
}

/// The refusal of statistics that ask for a newer build.
pub open spec fn build_too_old_text(build: i32) -> Seq<char> {
    "Client build "@ + text::decimal_int(CLIENT_BUILD as int)
        + " is too old. Minimum required: "@ + text::decimal_int(build as int)
}

impl HahApiClient {
    pub open spec fn stat_view(&self) -> StatView {
        StatView {
            delta: self.server_time_delta,
            ips: self.server_settings@.rpc_server_ips,
            port: self.server_settings.rpc_server_port,
            path: self.server_settings.rpc_path@,
        }
    }

    /// Only what the statistics can change differs from `before`.
    pub open spec fn after_stat(&self, before: &HahApiClient) -> bool {
        *self == (HahApiClient {
            server_time_delta: self.server_time_delta,
            server_settings: ServerSettings {
                rpc_server_ips: self.server_settings.rpc_server_ips,
                rpc_server_port: self.server_settings.rpc_server_port,
                rpc_path: self.server_settings.rpc_path,
                ..before.server_settings
            },
            ..*before
        })
    }

    fn read_stat_line(&mut self, line: &str, local_time: i64) -> (refused: Option<i32>)
        ensures
            refused == stat_line_refuses(line@),
            final(self).after_stat(old(self)),
            final(self).stat_view() == (if refused is Some {
                old(self).stat_view()
            } else {
                stat_line(old(self).stat_view(), line@, local_time)
            }),
    {
        proof {
            reveal_strlit("server_time");
            reveal_strlit("min_client_build");
            reveal_strlit("rpc_server_ip");
            reveal_strlit("rpc_server_port");
            reveal_strlit("rpc_path");
            assert("server_time"@.len() == 11);
            assert("min_client_build"@.len() == 16);
            assert("rpc_server_ip"@.len() == 13);
            assert("rpc_server_port"@.len() == 15);
            assert("rpc_path"@.len() == 8);
        }
        if let Some((k, value)) = text::split_text_once(line, '=') {
            let key = k.as_str().to_lowercase();
            if text::same(key.as_str(), "server_time") {
                let server_time = Some(value);
                self.note_server_time(&server_time, local_time);
            } else if text::same(key.as_str(), "min_client_build") {
                if let Some(build) = text::parse_signed(
                    value.as_str(),
                    i32::MIN as i64,
                    i32::MAX as i64,
                ) {
                    if build > CLIENT_BUILD as i64 {
                        return Some(build as i32);
                    }
                }
            } else if text::same(key.as_str(), "rpc_server_ip") {
                self.server_settings.rpc_server_ips = non_empty_parts(value.as_str());
            } else if text::same(key.as_str(), "rpc_server_port") {
                if let Some(port) = text::parse_unsigned(value.as_str(), u16::MAX as u64) {
                    self.server_settings.rpc_server_port = port as u16;
                }
            } else if text::same(key.as_str(), "rpc_path") {
                self.server_settings.rpc_path = value;
            }
        }
        None
    }

    /// Read the server's statistics (for time synchronization and minimum build
    /// check). Lines before one that refuses this client have taken effect.
    pub fn server_stat(&mut self, text: &str, local_time: i64) -> (r: Result<(), ApiError>)
        ensures
            final(self).after_stat(old(self)),
            text::starts_with(text@, "FAIL"@) ==> *final(self) == *old(self) && r is Err
                && r->Err_0.is_server_error(text@),
            !text::starts_with(text@, "FAIL"@) ==> {
                &&& final(self).stat_view() == stat_lines(
                    old(self).stat_view(),
                    text::lines(text@),
                    local_time,
                )
                &&& match stat_refused(text::lines(text@)) {
                    None => r is Ok,
                    Some(build) => r is Err && r->Err_0.is_server_error(build_too_old_text(build)),
                }
            },
    {
        if text::has_prefix(text, "FAIL") {
            return Err(ApiError::ServerError(text.to_string()));
        }
        let lines = text::lines_of(text);
        let ghost sent = text::texts(lines@);
        let mut i: usize = 0;
        proof {
            assert(sent.skip(0) =~= sent);
        }
        while i < lines.len()
            invariant
                i <= lines.len(),
                sent == text::texts(lines@),
                sent == text::lines(text@),
                !text::starts_with(text@, "FAIL"@),
                self.after_stat(old(self)),
                stat_lines(self.stat_view(), sent.skip(i as int), local_time) == stat_lines(
                    old(self).stat_view(),
                    sent,
                    local_time,
                ),
                stat_refused(sent.skip(i as int)) == stat_refused(sent),
            decreases lines.len() - i,
        {
            proof {
                assert(sent.skip(i as int).drop_first() =~= sent.skip(i + 1));
                assert(sent.skip(i as int).first() == lines@[i as int]@);
            }
            if let Some(build) = self.read_stat_line(lines[i].as_str(), local_time) {
                let mut message = "Client build ".to_string();
                message.append(text::decimal_of_int(CLIENT_BUILD as i64).as_str());
                message.append(" is too old. Minimum required: ");
                message.append(text::decimal_of_int(build as i64).as_str());
                return Err(ApiError::ServerError(message));
            }
            i = i + 1;
        }
        Ok(())
    }

    /// Read the reply to a login; `refreshed` once the time has been set anew
    /// after an expired key.
    pub fn client_login(&mut self, text: &str, refreshed: bool, local_time: i64) -> (r: Result<
        LoginStep,
        ApiError,
    >)
        ensures
            ({
                let lines = text::lines(text@);
                let expired = !refreshed && text::starts_with(text@, "KEY_EXPIRED"@);
                let failed = text::starts_with(text@, "FAIL"@);
                let read = !failed && !expired;
                &&& !read ==> *final(self) == *old(self)
                &&& failed ==> r is Err && r->Err_0.is_auth_failure(text@)
                &&& expired && !failed ==> r is Ok && r->Ok_0 is RefreshTime
                &&& read ==> final(self).server_time_delta == delta_after(
                    param(lines, "server_time"@),
                    old(self).server_time_delta,
                    local_time,
                )
                &&& read ==> *final(self) == (HahApiClient {
                    server_time_delta: final(self).server_time_delta,
                    server_settings: final(self).server_settings,
                    ..*old(self)
                })
                &&& read && build_refused(lines) is Some ==> {
                    &&& r is Err
                    &&& r->Err_0.is_server_error(too_old_text(build_refused(lines)->0))
                    &&& final(self).server_settings == old(self).server_settings
                }
                &&& read && build_refused(lines) is None ==> {
                    &&& r is Ok
                    &&& r->Ok_0 is LoggedIn
                    &&& r->Ok_0->LoggedIn_0@ == read_settings(
                        old(self).server_settings@,
                        lines,
                        old(self).config.port,
                    )
                    &&& final(self).server_settings@ == r->Ok_0->LoggedIn_0@
                    &&& old(self).server_settings.wf() ==> final(self).server_settings.wf()
                }
            }),
    {
        if text::has_prefix(text, "FAIL") {
            return Err(ApiError::AuthFailed(text.to_string()));
        }
        if !refreshed && text::has_prefix(text, "KEY_EXPIRED") {
            return Ok(LoginStep::RefreshTime);
        }
        match self.parse_server_settings(text, local_time) {
            Ok(settings) => {
                self.server_settings = settings.clone();
                Ok(LoginStep::LoggedIn(settings))
            },
            Err(e) => Err(e),
        }
    }
}

// ---------------------------------------------------------------------------
// Requests
// ---------------------------------------------------------------------------

impl HahApiClient {
    /// The request that registers the client with the H@H server.
    pub fn client_login_request(&mut self, local_time: i64) -> (url: String)
        requires
            old(self).tells_time(local_time),
        ensures
            url@ == old(self).rpc_request("client_login"@, ""@, local_time),
            final(self).after_request(old(self)),
    {
        self.build_url("client_login", "", local_time)
    }

    /// The heartbeat.
    pub fn client_still_alive_request(&mut self, local_time: i64) -> (url: String)
        requires
            old(self).tells_time(local_time),
        ensures
            url@ == old(self).rpc_request("still_alive"@, ""@, local_time),
            final(self).after_request(old(self)),
    {
        self.build_url("still_alive", "", local_time)
    }

    /// Tells the server that the client is suspending.
    pub fn client_suspend_request(&mut self, local_time: i64) -> (url: String)
        requires
            old(self).tells_time(local_time),
        ensures
            url@ == old(self).rpc_request("client_suspend"@, ""@, local_time),
            final(self).after_request(old(self)),
    {
        self.build_url("client_suspend", "", local_time)
    }

    /// Tells the server that the client is resuming.
    pub fn client_resume_request(&mut self, local_time: i64) -> (url: String)
        requires
            old(self).tells_time(local_time),
        ensures
            url@ == old(self).rpc_request("client_resume"@, ""@, local_time),
            final(self).after_request(old(self)),
    {
        self.build_url("client_resume", "", local_time)
    }

    /// Tells the server that the client is shutting down.
    pub fn client_stop_request(&mut self, local_time: i64) -> (url: String)
        requires
            old(self).tells_time(local_time),
        ensures
            url@ == old(self).rpc_request("client_stop"@, ""@, local_time),
            final(self).after_request(old(self)),
    {
        self.build_url("client_stop", "", local_time)
    }

    /// Asks for the list of files to download.
    pub fn get_static_range_request(&mut self, local_time: i64) -> (url: String)
        requires
            old(self).tells_time(local_time),
        ensures
            url@ == old(self).rpc_request("get_blacklist"@, ""@, local_time),
            final(self).after_request(old(self)),
    {
        self.build_url("get_blacklist", "", local_time)
    }

    /// Asks for the files to remove from the local cache.
    pub fn get_uncache_list_request(&mut self, local_time: i64) -> (url: String)
        requires
            old(self).tells_time(local_time),
        ensures
            url@ == old(self).rpc_request("get_uncache_list"@, ""@, local_time),
            final(self).after_request(old(self)),
    {
        self.build_url("get_uncache_list", "", local_time)
    }

    /// Asks for more files of the static ranges.
    pub fn fetch_static_range_files_request(&mut self, local_time: i64) -> (url: String)
        requires
            old(self).tells_time(local_time),
        ensures
            url@ == old(self).rpc_request("srfetch"@, ""@, local_time),
            final(self).after_request(old(self)),
    {
        self.build_url("srfetch", "", local_time)
    }

    /// Reports downloaded files; with no files there is nothing to send.
    pub fn downloaded_files_request(&mut self, files: &Vec<String>, local_time: i64) -> (r: Option<String>)
        requires
            old(self).tells_time(local_time),
        ensures
            match r {
                None => files@.len() == 0 && *final(self) == *old(self),
                Some(url) => {
                    &&& files@.len() > 0
                    &&& url@ == old(self).rpc_request(
                        "dl_finished"@,
                        text::join(text::texts(files@), ";"@),
                        local_time,
                    )
                    &&& final(self).after_request(old(self))
                },
            },
    {
        if files.len() == 0 {
            return None;
        }
        let additional = text::join_texts(files, ";");
        Some(self.build_url("dl_finished", additional.as_str(), local_time))
    }

    /// Reports uncached files; with no files there is nothing to send.
    pub fn report_uncached_request(&mut self, files: &Vec<String>, local_time: i64) -> (r: Option<String>)
        requires
            old(self).tells_time(local_time),
        ensures
            match r {
                None => files@.len() == 0 && *final(self) == *old(self),
                Some(url) => {
                    &&& files@.len() > 0
                    &&& url@ == old(self).rpc_request(
                        "uncache_finished"@,
                        text::join(text::texts(files@), ";"@),
                        local_time,
                    )
                    &&& final(self).after_request(old(self))
                },
            },
    {
        if files.len() == 0 {
            return None;
        }
        let additional = text::join_texts(files, ";");
        Some(self.build_url("uncache_finished", additional.as_str(), local_time))
    }

    /// Reports a served file (for statistics). Any reply will do.
    pub fn report_served(&mut self, file_hash: &str, served_bytes: u64, local_time: i64) -> (url:
        String)
        requires
            old(self).tells_time(local_time),
        ensures
            url@ == old(self).rpc_request(
                "file_served"@,
                file_hash@ + ";"@ + text::decimal(served_bytes as nat),
                local_time,
            ),
            final(self).after_request(old(self)),
    {
        let mut additional = file_hash.to_string();
        additional.append(";");
        additional.append(text::decimal_of(served_bytes).as_str());
        self.build_url("file_served", additional.as_str(), local_time)
    }

    /// Tells the server whether the client is under heavy load.
    pub fn notify_overload_request(&mut self, overloaded: bool, local_time: i64) -> (url: String)
        requires
            old(self).tells_time(local_time),
        ensures
            url@ == old(self).rpc_request(
                "client_overload"@,
                if overloaded {
                    "1"@
                } else {
                    "0"@
                },
                local_time,
            ),
            final(self).after_request(old(self)),
    {
        let additional = if overloaded {
            "1"
        } else {
            "0"
        };
        self.build_url("client_overload", additional, local_time)
    }

    /// Asks where a file that is not cached can be had (proxy mode).
    pub fn proxy_request_request(&mut self, file_hash: &str, local_time: i64) -> (url: String)
        requires
            old(self).tells_time(local_time),
        ensures
            url@ == old(self).rpc_request("proxy_request"@, file_hash@, local_time),
            final(self).after_request(old(self)),
    {
        self.build_url("proxy_request", file_hash, local_time)
    }

    /// Updates the server with current statistics. Any reply will do.
    pub fn report_statistics(
        &mut self,
        bytes_served: u64,
        files_served: u64,
        cache_size: u64,
        cache_files: u64,
        local_time: i64,
    ) -> (url: String)
        requires
            old(self).tells_time(local_time),
        ensures
            url@ == old(self).rpc_request(
                "client_stats"@,
                text::decimal(bytes_served as nat) + ";"@ + text::decimal(files_served as nat)
                    + ";"@ + text::decimal(cache_size as nat) + ";"@ + text::decimal(
                    cache_files as nat,
                ),
                local_time,
            ),
            final(self).after_request(old(self)),
    {
        let mut stats = text::decimal_of(bytes_served);
        stats.append(";");
        stats.append(text::decimal_of(files_served).as_str());
        stats.append(";");
        stats.append(text::decimal_of(cache_size).as_str());
        stats.append(";");
        stats.append(text::decimal_of(cache_files).as_str());
        self.build_url("client_stats", stats.as_str(), local_time)
    }

    /// The URL that test data for a bandwidth measurement comes from.
    pub fn speed_test(&self, size: usize) -> (url: String)
        ensures
            url@ == self.server_settings.request_server@ + "?cmd=speed_test&size="@ + text::decimal(
                size as nat,
            ),
    {
        let mut url = self.server_settings.request_server.clone();
        url.append("?cmd=speed_test&size=");
        url.append(text::decimal_of(size as u64).as_str());
        url
    }

    /// Asks for the next gallery of the download queue; `mark_previous` names the
    /// gallery, and its resolution, that is thereby marked as complete.
    pub fn fetch_download_queue_request(
        &mut self,
        mark_previous: Option<(i32, &str)>,
        local_time: i64,
    ) -> (url: String)
        requires
            old(self).tells_time(local_time),
        ensures
            url@ == request_text(
                old(self).next_host(),
                "/15/dl?"@,
                "fetchqueue"@,
                match mark_previous {
                    Some((gid, minxres)) => text::decimal_int(gid as int) + ";"@ + minxres@,
                    None => ""@,
                },
                old(self).config.client_id@,
                old(self).server_time(local_time),
                old(self).config.client_key@,
            ),
            final(self).after_request(old(self)),
    {
        let additional = match mark_previous {
            Some((gid, minxres)) => {
                let mut marked = text::decimal_of_int(gid as i64);
                marked.append(";");
                marked.append(minxres);
                marked
            },
            None => "".to_string(),
        };
        self.build_download_url("fetchqueue", additional.as_str(), local_time)
    }

    /// Asks for the URL of a gallery file.
    pub fn get_downloader_fetch_url_request(
        &mut self,
        gid: i32,
        page: i32,
        fileindex: i32,
        xres: &str,
        retry: i32,
        local_time: i64,
    ) -> (url: String)
        requires
            old(self).tells_time(local_time),
        ensures
            url@ == old(self).rpc_request(
                "dlfetch"@,
                text::decimal_int(gid as int) + ";"@ + text::decimal_int(page as int) + ";"@
                    + text::decimal_int(fileindex as int) + ";"@ + xres@ + ";"@
                    + text::decimal_int(retry as int),
                local_time,
            ),
            final(self).after_request(old(self)),
    {
        let mut additional = text::decimal_of_int(gid as i64);
        additional.append(";");
        additional.append(text::decimal_of_int(page as i64).as_str());
        additional.append(";");
        additional.append(text::decimal_of_int(fileindex as i64).as_str());
        additional.append(";");
        additional.append(xres);
        additional.append(";");
        additional.append(text::decimal_of_int(retry as i64).as_str());
        self.build_url("dlfetch", additional.as_str(), local_time)
    }

    /// Reports download failures. Any reply will do. Nothing is sent where there
    /// are none, or so many that the fault is probably the client's own.
    pub fn report_download_failures(&mut self, failures: &Vec<String>, local_time: i64) -> (r:
        Option<String>)
        requires
            old(self).tells_time(local_time),
        ensures
            match r {
                None => (failures@.len() == 0 || failures@.len() > 50) && *final(self) == *old(
                    self,
                ),
                Some(url) => {
                    &&& 0 < failures@.len() <= 50
                    &&& url@ == old(self).rpc_request(
                        "dlfails"@,
                        text::join(text::texts(failures@), ";"@),
                        local_time,
                    )
                    &&& final(self).after_request(old(self))
                },
            },
    {
        if failures.len() == 0 || failures.len() > 50 {
            return None;
        }
        let additional = text::join_texts(failures, ";");
        Some(self.build_url("dlfails", additional.as_str(), local_time))
    }
}

// ---------------------------------------------------------------------------
// Replies
// ---------------------------------------------------------------------------

/// A reply that has to contain `OK`.
pub open spec fn acknowledgement(reply: Seq<char>, r: Result<(), ApiError>) -> bool {
    match r {
        Ok(_) => text::contains(reply, "OK"@),
        Err(e) => !text::contains(reply, "OK"@) && e.is_server_error(reply),
    }
}

/// A line of a list that is neither empty, a comment nor the word `OK`.
pub open spec fn is_list_entry(line: Seq<char>) -> bool {
    line.len() > 0 && line[0] != '#' && line != "OK"@
}

/// The entries of a list, in order.
pub open spec fn list_entries(lines: Seq<Seq<char>>) -> Seq<Seq<char>>
    decreases lines.len(),
{
    if lines.len() == 0 {
        Seq::empty()
    } else if is_list_entry(lines.last()) {
        list_entries(lines.drop_last()).push(lines.last())
    } else {
        list_entries(lines.drop_last())
    }
}

/// A `hash;size;type` line; a size that is no number counts as 0.
pub open spec fn range_file(line: Seq<char>) -> Option<(Seq<char>, u64, Seq<char>)> {
    let parts = text::split(line, ';');
    if is_list_entry(line) && parts.len() >= 3 {
        Some(
            (
                parts[0],
                unsigned_param(Some(parts[1]), u64::MAX as int, 0, 0) as u64,
                parts[2],
            ),
        )
    } else {
        None
    }
}

/// The files of a list, in order.
pub open spec fn range_files(lines: Seq<Seq<char>>) -> Seq<(Seq<char>, u64, Seq<char>)>
    decreases lines.len(),
{
    if lines.len() == 0 {
        Seq::empty()
    } else {
        match range_file(lines.last()) {
            Some(file) => range_files(lines.drop_last()).push(file),
            None => range_files(lines.drop_last()),
        }
    }
}

pub open spec fn file_views(files: Seq<(String, u64, String)>) -> Seq<
    (Seq<char>, u64, Seq<char>),
> {
    files.map_values(|f: (String, u64, String)| (f.0@, f.1, f.2@))
}

/// The first line of a reply, where it has one.
pub open spec fn first_line(reply: Seq<char>) -> Option<Seq<char>> {
    let lines = text::lines(reply);
    if lines.len() == 0 {
        None
    } else {
        Some(lines.first())
    }
}

fn first_line_of(reply: &str) -> (r: Option<String>)
    ensures
        web::optional_text(r) == first_line(reply@),
{
    let lines = text::lines_of(reply);
    if lines.len() == 0 {
        None
    } else {
        assert(text::texts(lines@).first() == lines@[0]@);
        Some(lines[0].clone())
    }
}

fn is_entry(line: &str) -> (r: bool)
    ensures
        r == is_list_entry(line@),
{
    !line.is_empty() && !text::has_first(line, '#') && !text::same(line, "OK")
}

fn acknowledge(text: &str) -> (r: Result<(), ApiError>)
    ensures
        acknowledgement(text@, r),
{
    if text::has_substring(text, "OK") {
        Ok(())
    } else {
        Err(ApiError::ServerError(text.to_string()))
    }
}

impl HahApiClient {
    /// Read the reply to a heartbeat.
    pub fn client_still_alive(&self, text: &str) -> (r: Result<bool, ApiError>)
        ensures
            match r {
                Ok(alive) => {
                    &&& alive == text::contains(text@, "OK"@)
                    &&& alive || text::contains(text@, "FAIL"@)
                },
                Err(e) => {
                    &&& !text::contains(text@, "OK"@)
                    &&& !text::contains(text@, "FAIL"@)
                    &&& e.is_invalid_response(text@)
                },
            },
    {
        if text::has_substring(text, "OK") {
            Ok(true)
        } else if text::has_substring(text, "FAIL") {
            Ok(false)
        } else {
            Err(ApiError::InvalidResponse(text.to_string()))
        }
    }

    /// Read the reply to a suspension.
    pub fn client_suspend(&self, text: &str) -> (r: Result<(), ApiError>)
        ensures
            acknowledgement(text@, r),
    {
        acknowledge(text)
    }

    /// Read the reply to a resumption.
    pub fn client_resume(&self, text: &str) -> (r: Result<(), ApiError>)
        ensures
            acknowledgement(text@, r),
    {
        acknowledge(text)
    }

    /// Read the reply to a shutdown.
    pub fn client_stop(&self, text: &str) -> (r: Result<(), ApiError>)
        ensures
            acknowledgement(text@, r),
    {
        acknowledge(text)
    }

    /// Read the reply to a report of downloaded files.
    pub fn downloaded_files(&self, text: &str) -> (r: Result<(), ApiError>)
        ensures
            acknowledgement(text@, r),
    {
        acknowledge(text)
    }

    /// Read the reply to a report of uncached files.
    pub fn report_uncached(&self, text: &str) -> (r: Result<(), ApiError>)
        ensures
            acknowledgement(text@, r),
    {
        acknowledge(text)
    }

    /// Read the reply to a notice of load.
    pub fn notify_overload(&self, text: &str) -> (r: Result<(), ApiError>)
        ensures
            acknowledgement(text@, r),
    {
        acknowledge(text)
    }

    /// Read the list of files to download: the lines of the reply.
    pub fn get_static_range(&self, text: &str) -> (r: Result<Vec<String>, ApiError>)
        ensures
            match r {
                Ok(ranges) => {
                    &&& !text::starts_with(text@, "FAIL"@)
                    &&& text::texts(ranges@) == text::lines(text@)
                },
                Err(e) => text::starts_with(text@, "FAIL"@) && e.is_server_error(text@),
            },
    {
        if text::has_prefix(text, "FAIL") {
            return Err(ApiError::ServerError(text.to_string()));
        }
        Ok(text::lines_of(text))
    }

    /// Read the list of files to uncache.
    pub fn get_uncache_list(&self, text: &str) -> (r: Result<Vec<String>, ApiError>)
        ensures
            match r {
                Ok(hashes) => {
                    &&& !text::starts_with(text@, "FAIL"@)
                    &&& text::texts(hashes@) == list_entries(text::lines(text@))
                },
                Err(e) => text::starts_with(text@, "FAIL"@) && e.is_server_error(text@),
            },
    {
        if text::has_prefix(text, "FAIL") {
            return Err(ApiError::ServerError(text.to_string()));
        }
        let lines = text::lines_of(text);
        let ghost sent = text::texts(lines@);
        let mut hashes: Vec<String> = Vec::new();
        let mut i: usize = 0;
        proof {
            assert(text::texts(hashes@) =~= list_entries(sent.take(0)));
        }
        while i < lines.len()
            invariant
                i <= lines.len(),
                sent == text::texts(lines@),
                text::texts(hashes@) == list_entries(sent.take(i as int)),
            decreases lines.len() - i,
        {
            let ghost before = text::texts(hashes@);
            proof {
                assert(sent.take(i + 1).drop_last() =~= sent.take(i as int));
                assert(sent.take(i + 1).last() == lines@[i as int]@);
            }
            if is_entry(lines[i].as_str()) {
                hashes.push(lines[i].clone());
                proof {
                    assert(text::texts(hashes@) =~= before.push(lines@[i as int]@));
                }
            }
            i = i + 1;
        }
        proof {
            assert(sent.take(i as int) =~= sent);
        }
        Ok(hashes)
    }

    /// Read the list of files of the static ranges: hash, size and type of each.
    pub fn fetch_static_range_files(&self, text: &str) -> (r: Result<
        Vec<(String, u64, String)>,
        ApiError,
    >)
        ensures
            match r {
                Ok(files) => {
                    &&& !text::starts_with(text@, "FAIL"@)
                    &&& file_views(files@) == range_files(text::lines(text@))
                },
                Err(e) => text::starts_with(text@, "FAIL"@) && e.is_server_error(text@),
            },
    {
        if text::has_prefix(text, "FAIL") {
            return Err(ApiError::ServerError(text.to_string()));
        }
        let lines = text::lines_of(text);
        let ghost sent = text::texts(lines@);
        let mut files: Vec<(String, u64, String)> = Vec::new();
        let mut i: usize = 0;
        proof {
            assert(file_views(files@) =~= range_files(sent.take(0)));
        }
        while i < lines.len()
            invariant
                i <= lines.len(),
                sent == text::texts(lines@),
                file_views(files@) == range_files(sent.take(i as int)),
            decreases lines.len() - i,
        {
            let ghost before = file_views(files@);
            proof {
                assert(sent.take(i + 1).drop_last() =~= sent.take(i as int));
                assert(sent.take(i + 1).last() == lines@[i as int]@);
            }
            if is_entry(lines[i].as_str()) {
                let parts = text::split_text(lines[i].as_str(), ';');
                if parts.len() >= 3 {
                    let size: u64 = match text::parse_unsigned(parts[1].as_str(), u64::MAX) {
                        Some(n) => n,
                        None => 0,
                    };
                    files.push((parts[0].clone(), size, parts[2].clone()));
                    proof {
                        let texts = text::texts(parts@);
                        assert(texts[0] == parts@[0]@);
                        assert(texts[1] == parts@[1]@);
                        assert(texts[2] == parts@[2]@);
                        assert(file_views(files@) =~= before.push((texts[0], size, texts[2])));
                    }
                }
            }
            i = i + 1;
        }
        proof {
            assert(sent.take(i as int) =~= sent);
        }
        Ok(files)
    }

    /// Read where a file can be had: the first line of the reply.
    pub fn proxy_request(&self, text: &str) -> (r: Result<Option<String>, ApiError>)
        ensures
            r is Ok,
            web::optional_text(r->Ok_0) == (if text::starts_with(text@, "FAIL"@) || text::contains(
                text@,
                "NOT_FOUND"@,
            ) {
                None
            } else {
                first_line(text@)
            }),
    {
        if text::has_prefix(text, "FAIL") || text::has_substring(text, "NOT_FOUND") {
            return Ok(None);
        }
        Ok(first_line_of(text))
    }

    /// Read the URL of a gallery file: the first line of the reply.
    pub fn get_downloader_fetch_url(&self, text: &str) -> (r: Result<Option<String>, ApiError>)
        ensures
            r is Ok,
            web::optional_text(r->Ok_0) == (if text::starts_with(text@, "FAIL"@)
                || text::starts_with(text@, "INVALID"@) {
                None
            } else {
                first_line(text@)
            }),
    {
        if text::has_prefix(text, "FAIL") || text::has_prefix(text, "INVALID") {
            return Ok(None);
        }
        Ok(first_line_of(text))
    }

    /// Get the current server settings.
    pub fn get_settings(&self) -> (settings: ServerSettings)
        ensures
            settings@ == self.server_settings@,
            settings.wf() == self.server_settings.wf(),
    {
        self.server_settings.clone()
    }

    /// Get the static range count.
    pub fn get_static_range_count(&self) -> (n: i32)
        ensures
            n == self.server_settings.static_range_count,
    {
        self.server_settings.static_range_count
    }

    /// Get the throttle that the server set, in bytes per second.
    pub fn get_throttle_bytes(&self) -> (n: i64)
        ensures
            n == self.server_settings.throttle_bytes,
    {
        self.server_settings.throttle_bytes
    }

    /// Check if a hash is in an assigned static range: whether its first four
    /// bytes are one of the prefixes.
    pub fn is_in_static_range(&self, hash: &str) -> (r: bool)
        requires
            text::byte_len(hash@) >= 4 ==> text::byte_prefix(hash@, 4) is Some,
        ensures
            r == (text::byte_len(hash@) >= 4 && self.server_settings@.static_ranges.contains(
                text::byte_prefix(hash@, 4)->0,
            )),
    {
        if text::byte_length(hash) < 4 {
            return false;
        }
        match text::prefix_of_bytes(hash, 4) {
            Some(prefix) => text::is_listed(&self.server_settings.static_ranges, prefix.as_str()),
            None => false,
        }
    }
}

// ---------------------------------------------------------------------------
// Keystamps
// ---------------------------------------------------------------------------

/// What is hashed into the key of a file request.
pub open spec fn keystamp_input(
    timestamp: int,
    file_id: Seq<char>,
    client_key: Seq<char>,
) -> Seq<char> {
    text::decimal_int(timestamp) + "-"@ + file_id + "-"@ + client_key + "-hotlinkthis"@
}

/// The key of a request for `file_id` made at `timestamp`: the first ten
/// hexadecimal digits of the hash.
pub open spec fn keystamp_key(
    timestamp: int,
    file_id: Seq<char>,
    client_key: Seq<char>,
) -> Seq<char> {
    digest::sha1_hex(encode_utf8(keystamp_input(timestamp, file_id, client_key))).take(10)
}

/// The key is the one for that time and file, in either case of its letters, and
/// the time lies within the window around the server time.
pub open spec fn valid_request(
    file_id: Seq<char>,
    key: Seq<char>,
    timestamp: int,
    server_time: int,
    client_key: Seq<char>,
) -> bool {
    &&& -KEYSTAMP_WINDOW <= server_time - timestamp <= KEYSTAMP_WINDOW
    &&& text::same_ignoring_case(key, keystamp_key(timestamp, file_id, client_key))
}

impl HahApiClient {
    /// Verify that the keystamp of a file request is valid.
    pub fn verify_request(&self, file_id: &str, key: &str, timestamp: i64, local_time: i64) -> (r:
        bool)
        requires
            self.tells_time(local_time),
        ensures
            r == valid_request(
                file_id@,
                key@,
                timestamp as int,
                self.server_time(local_time),
                self.config.client_key@,
            ),
            r <==> {
                let time = local_time + self.server_time_delta;
                let digits = digest::hex_of(
                    digest::sha1_of(
                        encode_utf8(
                            text::decimal_int(timestamp as int) + "-"@ + file_id@ + "-"@
                                + self.config.client_key@ + "-hotlinkthis"@,
                        ),
                    ),
                );
                &&& time - 900 <= timestamp <= time + 900
                &&& text::same_ignoring_case(key@, digits.take(10))
            },
            r ==> key@.len() == 10 && forall|i: int|
                0 <= i < 10 ==> text::is_hex_digit(#[trigger] key@[i]),
    {
        let server_time: i64 = self.get_server_time(local_time);
        let difference: i128 = server_time as i128 - timestamp as i128;
        if difference < -(KEYSTAMP_WINDOW as i128) || difference > KEYSTAMP_WINDOW as i128 {
            return false;
        }
        let mut input = text::decimal_of_int(timestamp);
        input.append("-");
        input.append(file_id);
        input.append("-");
        input.append(self.config.client_key.as_str());
        input.append("-hotlinkthis");
        let hash = digest::sha1_hex_of(input.as_str().as_bytes());
        let digits = text::chars_of(hash.as_str());
        let expected = text::substring(&digits, 0, 10);
        proof {
            assert(expected@ =~= hash@.take(10));
            if text::same_ignoring_case(key@, expected@) {
                assert forall|i: int| 0 <= i < 10 implies text::is_hex_digit(#[trigger] key@[i]) by {
                    assert(text::ascii_lower(key@[i]) == text::ascii_lower(expected@[i]));
                }
            }
        }
        text::same_ignore_case(key, expected.as_str())
    }
}

/// The key that belongs to a time and a file is accepted as long as the time is
/// no further than fifteen minutes from the server's, and only then.
pub proof fn law_keystamp_accepted(
    file_id: Seq<char>,
    timestamp: int,
    server_time: int,
    client_key: Seq<char>,
)
    ensures
        valid_request(
            file_id,
            keystamp_key(timestamp, file_id, client_key),
            timestamp,
            server_time,
            client_key,
        ) <==> -900 <= server_time - timestamp <= 900,
{
}

/// While any listed server is not the one that failed last, the next request
/// goes to a server other than that one.
pub proof fn law_failover_avoids_failed_server(ips: Seq<Seq<char>>, failed: Seq<char>)
    requires
        exists|i: int| 0 <= i < ips.len() && ips[i] != failed,
    ensures
        selected_server(None, ips, Some(failed)) is Some,
        selected_server(None, ips, Some(failed))->0 != failed,
        ips.contains(selected_server(None, ips, Some(failed))->0),
    decreases ips.len(),
{
    if ips.first() == failed {
        let rest = ips.drop_first();
        let i = choose|i: int| 0 <= i < ips.len() && ips[i] != failed;
        assert(rest[i - 1] == ips[i]);
        law_failover_avoids_failed_server(rest, failed);
        let server = first_other(rest, Some(failed))->0;
        let j = choose|j: int| 0 <= j < rest.len() && rest[j] == server;
        assert(ips[j + 1] == server);
    } else {
        assert(ips[0] == ips.first());
    }
}

// ---------------------------------------------------------------------------
// The download queue
// ---------------------------------------------------------------------------

/// Gallery metadata from the H@H download queue.
#[derive(Debug, Clone)]
pub struct GalleryMeta {
    pub gid: i32,
    pub filecount: i32,
    pub minxres: String,
    pub title: String,
    pub files: Vec<GalleryFileMeta>,
    pub information: String,
}

/// File metadata for a gallery file.
#[derive(Debug, Clone)]
pub struct GalleryFileMeta {
    pub page: i32,
    pub fileindex: i32,
    pub xres: String,
    pub sha1hash: Option<String>,
    pub filetype: String,
    pub filename: String,
}

#[verifier::ext_equal]
pub struct FileMetaView {
    pub page: i32,
    pub fileindex: i32,
    pub xres: Seq<char>,
    pub sha1hash: Option<Seq<char>>,
    pub filetype: Seq<char>,
    pub filename: Seq<char>,
}

#[verifier::ext_equal]
pub struct MetaView {
    pub gid: i32,
    pub filecount: i32,
    pub minxres: Seq<char>,
    pub title: Seq<char>,
    pub files: Seq<FileMetaView>,
    pub information: Seq<char>,
}

impl View for GalleryFileMeta {
    type V = FileMetaView;

    open spec fn view(&self) -> FileMetaView {
        FileMetaView {
            page: self.page,
            fileindex: self.fileindex,
            xres: self.xres@,
            sha1hash: web::optional_text(self.sha1hash),
            filetype: self.filetype@,
            filename: self.filename@,
        }
    }
}

impl View for GalleryMeta {
    type V = MetaView;

    open spec fn view(&self) -> MetaView {
        MetaView {
            gid: self.gid,
            filecount: self.filecount,
            minxres: self.minxres@,
            title: self.title@,
            files: self.files@.map_values(|f: GalleryFileMeta| f@),
            information: self.information@,
        }
    }
}

impl GalleryMeta {
    /// No gallery: all counts zero, all texts empty.
    pub open spec fn blank() -> MetaView {
        MetaView {
            gid: 0,
            filecount: 0,
            minxres: Seq::empty(),
            title: Seq::empty(),
            files: Seq::empty(),
            information: Seq::empty(),
        }
    }
}

impl Default for GalleryMeta {
    fn default() -> (r: Self)
        ensures
            r@ == GalleryMeta::blank(),
    {
        let r = GalleryMeta {
            gid: 0,
            filecount: 0,
            minxres: String::new(),
            title: String::new(),
            files: Vec::new(),
            information: String::new(),
        };
        assert(r@.files =~= Seq::empty());
        r
    }
}

/// Characters that a title may not hold as a file name.
pub open spec fn is_reserved(c: char) -> bool {
    c == '*' || c == '"' || c == '\\' || c == '<' || c == '>' || c == ':' || c == '|' || c == '?'
}

pub open spec fn without_reserved(s: Seq<char>) -> Seq<char>
    decreases s.len(),
{
    if s.len() == 0 {
        Seq::empty()
    } else if is_reserved(s.last()) {
        without_reserved(s.drop_last())
    } else {
        without_reserved(s.drop_last()).push(s.last())
    }
}

/// A title for the file system: reserved characters left out, and one space
/// between words.
pub open spec fn sanitized_title(s: Seq<char>) -> Seq<char> {
    text::join(text::words(without_reserved(s)), " "@)
}

/// The three sections of a gallery's metadata.
pub enum MetaSection {
    Header,
    FileList,
    Information,
}

/// A `KEY value` line of the header.
pub open spec fn header_line(meta: MetaView, line: Seq<char>) -> MetaView {
    match text::split_once(line, ' ') {
        Some((key, value)) => if key == "GID"@ {
            MetaView {
                gid: number_param(Some(value), i32::MIN as int, i32::MAX as int, 0, 0) as i32,
                ..meta
            }
        } else if key == "FILECOUNT"@ {
            MetaView {
                filecount: number_param(Some(value), i32::MIN as int, i32::MAX as int, 0, 0) as i32,
                ..meta
            }
        } else if key == "MINXRES"@ {
            MetaView { minxres: value, ..meta }
        } else if key == "TITLE"@ {
            MetaView { title: sanitized_title(value), ..meta }
        } else {
            meta
        },
        None => meta,
    }
}

/// A `page fileindex xres sha1hash filetype filename` line.
pub open spec fn file_line(line: Seq<char>) -> Option<FileMetaView> {
    let parts = text::split_at_most(line, ' ', 6);
    if parts.len() >= 6 {
        Some(
            FileMetaView {
                page: number_param(Some(parts[0]), i32::MIN as int, i32::MAX as int, 0, 0) as i32,
                fileindex: number_param(
                    Some(parts[1]),
                    i32::MIN as int,
                    i32::MAX as int,
                    0,
                    0,
                ) as i32,
                xres: parts[2],
                sha1hash: if parts[3] == "unknown"@ {
                    None
                } else {
                    Some(parts[3])
                },
                filetype: parts[4],
                filename: parts[5],
            },
        )
    } else {
        None
    }
}

/// One line of the metadata, in the section that has been reached.
pub open spec fn meta_line(state: (MetaSection, MetaView), line: Seq<char>) -> (
    MetaSection,
    MetaView,
) {
    let meta = state.1;
    match state.0 {
        MetaSection::Header => if line == "FILELIST"@ {
            (MetaSection::FileList, meta)
        } else if line.len() == 0 {
            state
        } else {
            (MetaSection::Header, header_line(meta, line))
        },
        MetaSection::FileList => if line == "INFORMATION"@ {
            (MetaSection::Information, meta)
        } else {
            match file_line(line) {
                Some(file) => (
                    MetaSection::FileList,
                    MetaView { files: meta.files.push(file), ..meta },
                ),
                None => state,
            }
        },
        MetaSection::Information => (
            MetaSection::Information,
            MetaView { information: (meta.information + line).push('\n'), ..meta },
        ),
    }
}

/// The lines taken in turn.
pub open spec fn meta_lines(lines: Seq<Seq<char>>) -> (MetaSection, MetaView)
    decreases lines.len(),
{
    if lines.len() == 0 {
        (MetaSection::Header, GalleryMeta::blank())
    } else {
        meta_line(meta_lines(lines.drop_last()), lines.last())
    }
}

/// The gallery that a reply describes, where its number, its file count and its
/// title are there.
pub open spec fn read_gallery_meta(reply: Seq<char>) -> Option<MetaView> {
    let meta = meta_lines(text::lines(reply)).1;
    if meta.gid > 0 && meta.filecount > 0 && meta.title.len() > 0 {
        Some(meta)
    } else {
        None
    }
}

pub open spec fn optional_meta(o: Option<GalleryMeta>) -> Option<MetaView> {
    match o {
        Some(meta) => Some(meta@),
        None => None,
    }
}

fn drop_reserved(s: &str) -> (r: String)
    ensures
        r@ == without_reserved(s@),
{
    let v = text::chars_of(s);
    let mut r: String = String::new();
    let mut i: usize = 0;
    proof {
        assert(r@ =~= without_reserved(v@.take(0)));
    }
    while i < v.len()
        invariant
            i <= v.len(),
            v@ == s@,
            r@ == without_reserved(v@.take(i as int)),
        decreases v.len() - i,
    {
        proof {
            assert(v@.take(i + 1).drop_last() =~= v@.take(i as int));
        }
        let c = v[i];
        if !(c == '*' || c == '"' || c == '\\' || c == '<' || c == '>' || c == ':' || c == '|' || c
            == '?') {
            r.push(c);
        }
        i = i + 1;
    }
    proof {
        assert(v@.take(i as int) =~= s@);
    }
    r
}

fn sanitize_title(s: &str) -> (r: String)
    ensures
        r@ == sanitized_title(s@),
{
    let kept = drop_reserved(s);
    let words = text::words_of(kept.as_str());
    text::join_texts(&words, " ")
}

fn small_number(s: &str) -> (r: i32)
    ensures
        r == number_param(Some(s@), i32::MIN as int, i32::MAX as int, 0, 0),
{
    match text::parse_signed(s, i32::MIN as i64, i32::MAX as i64) {
        Some(i) => i as i32,
        None => 0,
    }
}

fn read_header_line(meta: &mut GalleryMeta, line: &str)
    ensures
        final(meta)@ == header_line(old(meta)@, line@),
{
    if let Some((key, value)) = text::split_text_once(line, ' ') {
        if text::same(key.as_str(), "GID") {
            meta.gid = small_number(value.as_str());
        } else if text::same(key.as_str(), "FILECOUNT") {
            meta.filecount = small_number(value.as_str());
        } else if text::same(key.as_str(), "MINXRES") {
            meta.minxres = value;
        } else if text::same(key.as_str(), "TITLE") {
            meta.title = sanitize_title(value.as_str());
        }
    }
}

fn read_file_line(line: &str) -> (r: Option<GalleryFileMeta>)
    ensures
        match r {
            Some(file) => file_line(line@) == Some(file@),
            None => file_line(line@) is None,
        },
{
    let parts = text::split_text_at_most(line, ' ', 6);
    if parts.len() >= 6 {
        proof {
            let texts = text::texts(parts@);
            assert(texts[0] == parts@[0]@);
            assert(texts[1] == parts@[1]@);
            assert(texts[2] == parts@[2]@);
            assert(texts[3] == parts@[3]@);
            assert(texts[4] == parts@[4]@);
            assert(texts[5] == parts@[5]@);
        }
        let file = GalleryFileMeta {
            page: small_number(parts[0].as_str()),
            fileindex: small_number(parts[1].as_str()),
            xres: parts[2].clone(),
            sha1hash: if text::same(parts[3].as_str(), "unknown") {
                None
            } else {
                Some(parts[3].clone())
            },
            filetype: parts[4].clone(),
            filename: parts[5].clone(),
        };
        Some(file)
    } else {
        None
    }
}

impl HahApiClient {
    /// Parse gallery metadata from a server reply.
    pub fn parse_gallery_meta(&self, response: &str) -> (r: Result<Option<GalleryMeta>, ApiError>)
        ensures
            r is Ok,
            optional_meta(r->Ok_0) == read_gallery_meta(response@),
    {
        let lines = text::lines_of(response);
        let ghost sent = text::texts(lines@);
        let mut meta = GalleryMeta::default();
        let mut section = MetaSection::Header;
        let mut i: usize = 0;
        proof {
            assert(sent.take(0) =~= Seq::empty());
        }
        while i < lines.len()
            invariant
                i <= lines.len(),
                sent == text::texts(lines@),
                (section, meta@) == meta_lines(sent.take(i as int)),
            decreases lines.len() - i,
        {
            let line = lines[i].as_str();
            proof {
                assert(sent.take(i + 1).drop_last() =~= sent.take(i as int));
                assert(sent.take(i + 1).last() == line@);
            }
            let ghost before = meta@;
            match section {
                MetaSection::Header => {
                    if text::same(line, "FILELIST") {
                        section = MetaSection::FileList;
                    } else if !line.is_empty() {
                        read_header_line(&mut meta, line);
                    }
                },
                MetaSection::FileList => {
                    if text::same(line, "INFORMATION") {
                        section = MetaSection::Information;
                    } else if let Some(file) = read_file_line(line) {
                        meta.files.push(file);
                        proof {
                            assert(meta@.files =~= before.files.push(file@));
                        }
                    }
                },
                MetaSection::Information => {
                    meta.information.append(line);
                    meta.information.push('\n');
                },
            }
            i = i + 1;
        }
        proof {
            assert(sent.take(i as int) =~= sent);
        }
        if meta.gid > 0 && meta.filecount > 0 && !meta.title.as_str().is_empty() {
            Ok(Some(meta))
        } else {
            Ok(None)
        }
    }

    /// Read the next gallery of the download queue.
    pub fn fetch_download_queue(&self, text: &str) -> (r: Result<Option<GalleryMeta>, ApiError>)
        ensures
            match r {
                Ok(next) => {
                    &&& !text::starts_with(text@, "FAIL"@)
                    &&& !text::starts_with(text@, "INVALID_REQUEST"@)
                    &&& optional_meta(next) == (if text@ == "NO_PENDING_DOWNLOADS"@ {
                        None
                    } else {
                        read_gallery_meta(text@)
                    })
                },
                Err(e) => {
                    &&& text::starts_with(text@, "FAIL"@) || text::starts_with(
                        text@,
                        "INVALID_REQUEST"@,
                    )
                    &&& e.is_server_error(text@)
                },
            },
    {
        if text::has_prefix(text, "FAIL") || text::has_prefix(text, "INVALID_REQUEST") {
            return Err(ApiError::ServerError(text.to_string()));
        }
        if text::same(text, "NO_PENDING_DOWNLOADS") {
            return Ok(None);
        }
        self.parse_gallery_meta(text)
    }
}

/// A title for the file system holds no reserved character, begins and ends with
/// a word, and has no white space but the spaces between words.
pub proof fn law_title_is_sanitized(s: Seq<char>)
    ensures
        forall|i: int|
            0 <= i < sanitized_title(s).len() ==> {
                &&& !is_reserved(#[trigger] sanitized_title(s)[i])
                &&& text::is_space(sanitized_title(s)[i]) ==> sanitized_title(s)[i] == ' '
            },
        sanitized_title(s).len() > 0 ==> !text::is_space(sanitized_title(s).first())
            && !text::is_space(sanitized_title(s).last()),
{
    reveal_strlit(" ");
    let kept = without_reserved(s);
    lemma_without_reserved(s);
    let words = text::words(kept);
    text::lemma_words(kept, |c: char| !is_reserved(c));
    let allowed = |c: char| !is_reserved(c) && (text::is_space(c) ==> c == ' ');
    assert forall|w: int, i: int| 0 <= w < words.len() && 0 <= i < words[w].len() implies allowed(
        #[trigger] words[w][i],
    ) by {
        assert((|c: char| !is_reserved(c))(words[w][i]));
    }
    text::lemma_join(words, " "@, allowed);
    assert forall|i: int| 0 <= i < sanitized_title(s).len() implies {
        &&& !is_reserved(#[trigger] sanitized_title(s)[i])
        &&& text::is_space(sanitized_title(s)[i]) ==> sanitized_title(s)[i] == ' '
    } by {
        assert(allowed(sanitized_title(s)[i]));
    }
    if words.len() > 0 {
        assert(!text::is_space(words[0][0]));
        assert(!text::is_space(words[words.len() - 1][words.last().len() - 1]));
    }
}

proof fn lemma_without_reserved(s: Seq<char>)
    ensures
        forall|i: int|
            0 <= i < without_reserved(s).len() ==> !is_reserved(#[trigger] without_reserved(s)[i]),
    decreases s.len(),
{
    if s.len() > 0 {
        let rest = without_reserved(s.drop_last());
        lemma_without_reserved(s.drop_last());
        assert forall|i: int| 0 <= i < without_reserved(s).len() implies !is_reserved(
            #[trigger] without_reserved(s)[i],
        ) by {
            if i < rest.len() {
                assert(without_reserved(s)[i] == rest[i]);
            }
        }
    }
}

/// A setting that a reply does not name keeps its value: a reply without any
/// `key=value` line changes nothing.
pub proof fn law_settings_are_kept(before: SettingsView, lines: Seq<Seq<char>>, config_port: u16)
    requires
        forall|i: int| 0 <= i < lines.len() ==> text::split_once(#[trigger] lines[i], '=') is None,
    ensures
        read_settings(before, lines, config_port) == before,
        build_refused(lines) is None,
{
    assert forall|key: Seq<char>| param(lines, key) is None by {
        lemma_no_param(lines, key);
    }
    assert(read_settings(before, lines, config_port) =~= before);
}

proof fn lemma_no_param(lines: Seq<Seq<char>>, key: Seq<char>)
    requires
        forall|i: int| 0 <= i < lines.len() ==> text::split_once(#[trigger] lines[i], '=') is None,
    ensures
        param(lines, key) is None,
    decreases lines.len(),
{
    if lines.len() > 0 {
        assert(lines.last() == lines[lines.len() - 1]);
        assert forall|i: int| 0 <= i < lines.drop_last().len() implies text::split_once(
            #[trigger] lines.drop_last()[i],
            '=',
        ) is None by {
            assert(lines.drop_last()[i] == lines[i]);
        }
        lemma_no_param(lines.drop_last(), key);
    }
}

/// Of several lines for one key the last holds, and no line touches another key.
pub proof fn law_last_value_holds(
    lines: Seq<Seq<char>>,
    key: Seq<char>,
    value: Seq<char>,
    other: Seq<char>,
)
    requires
        !key.contains('='),
    ensures
        param(lines.push(key + seq!['='] + value), key) == Some(value),
        other != key ==> param(lines.push(key + seq!['='] + value), other) == param(lines, other),
{
    let line = key + seq!['='] + value;
    assert forall|j: int| 0 <= j < key.len() implies line[j] != '=' by {
        assert(key[j] != '=');
    }
    text::lemma_index_of_unique(line, '=', key.len() as int);
    assert(line.take(key.len() as int) =~= key);
    assert(line.skip(key.len() as int + 1) =~= value);
    assert(lines.push(line).drop_last() =~= lines);
}

proof fn lemma_four_byte_parts(parts: Seq<Seq<char>>, part: Seq<char>)
    ensures
        four_byte_parts(parts).contains(part) <==> parts.contains(part) && text::byte_len(part) == 4,
    decreases parts.len(),
{
    if parts.len() > 0 {
        let rest = parts.drop_last();
        lemma_four_byte_parts(rest, part);
        if rest.contains(part) {
            let i = choose|i: int| 0 <= i < rest.len() && rest[i] == part;
            assert(parts[i] == part);
        }
        if parts.contains(part) && part != parts.last() {
            let i = choose|i: int| 0 <= i < parts.len() && parts[i] == part;
            assert(rest[i] == part);
        }
        assert(parts.last() == parts[parts.len() - 1]);
    }
}

/// The static ranges that a reply lists are exactly those of its parts that take
/// four bytes.
pub proof fn law_listed_ranges_are_assigned(
    before: SettingsView,
    lines: Seq<Seq<char>>,
    config_port: u16,
    list: Seq<char>,
    range: Seq<char>,
)
    requires
        param(lines, "static_ranges"@) == Some(list),
    ensures
        read_settings(before, lines, config_port).static_ranges.contains(range) <==> text::split(
            list,
            ';',
        ).contains(range) && text::byte_len(range) == 4,
{
    lemma_four_byte_parts(text::split(list, ';'), range);
}

/// Once the server has named its time, the client tells that time.
pub proof fn law_clock_follows_the_server(
    client: HahApiClient,
    before: i32,
    server_time: i64,
    local_time: i64,
)
    requires
        i32::MIN <= server_time - local_time <= i32::MAX,
        client.server_time_delta == delta_after(
            Some(text::decimal_int(server_time as int)),
            before,
            local_time,
        ),
    ensures
        client.tells_time(local_time),
        client.server_time(local_time) == server_time,
{
    text::law_decimal_reads_back(server_time as int, i64::MIN as int, i64::MAX as int);
}

/// A key opens a file where the time lies within fifteen minutes of the server's, and
/// the key is, in either case of its letters, the first ten hexadecimal digits of the
/// SHA-1 hash of the time, the file, the whole key of the client and a fixed word.
pub proof fn law_key_opens_the_file(
    client: HahApiClient,
    file_id: &str,
    key: &str,
    timestamp: i64,
    local_time: i64,
    opened: bool,
)
    requires
        call_ensures(
            HahApiClient::verify_request,
            (&client, file_id, key, timestamp, local_time),
            opened,
        ),
    ensures
        ({
            let server_time = local_time + client.server_time_delta;
            let hashed = text::decimal_int(timestamp as int) + seq!['-'] + file_id@ + seq!['-']
                + client.config.client_key@ + "-hotlinkthis"@;
            let digits = digest::hex_of(digest::sha1_of(encode_utf8(hashed)));
            opened <==> {
                &&& server_time - timestamp <= 900
                &&& timestamp - server_time <= 900
                &&& text::same_ignoring_case(key@, digits.subrange(0, 10))
            }
        }),
{
    reveal_strlit("-");
    let hashed = text::decimal_int(timestamp as int) + seq!['-'] + file_id@ + seq!['-']
        + client.config.client_key@ + "-hotlinkthis"@;
    assert("-"@ =~= seq!['-']);
    assert(hashed =~= keystamp_input(timestamp as int, file_id@, client.config.client_key@));
    let digits = digest::hex_of(digest::sha1_of(encode_utf8(hashed)));
    assert(digits.subrange(0, 10) =~= digits.take(10));
}

/// The last line of the reply that gives this key a value gives it this one.
pub open spec fn last_line_says(lines: Seq<Seq<char>>, key: Seq<char>, value: Seq<char>) -> bool {
    exists|i: int|
        0 <= i < lines.len() && #[trigger] lines[i] == key + seq!['='] + value && forall|j: int|
            i < j < lines.len() ==> !begins_with_key(#[trigger] lines[j], key)
}

/// No line of the reply gives this key a value.
pub open spec fn no_line_says(lines: Seq<Seq<char>>, key: Seq<char>) -> bool {
    forall|j: int| 0 <= j < lines.len() ==> !begins_with_key(#[trigger] lines[j], key)
}

/// The line gives this key a value.
pub open spec fn begins_with_key(line: Seq<char>, key: Seq<char>) -> bool {
    line.len() > key.len() && line.take(key.len() as int) == key && line[key.len() as int] == '='
}

/// The value of a key is what stands behind it, and the equals sign, in the last line that
/// begins so.
pub proof fn law_values_are_found(lines: Seq<Seq<char>>, key: Seq<char>, value: Seq<char>)
    requires
        !key.contains('='),
    ensures
        last_line_says(lines, key, value) ==> param(lines, key) == Some(value),
        no_line_says(lines, key) ==> param(lines, key) is None,
    decreases lines.len(),
{
    if lines.len() > 0 {
        let rest = lines.drop_last();
        let line = lines.last();
        law_values_are_found(rest, key, value);
        if begins_with_key(line, key) {
            let v = line.skip(key.len() as int + 1);
            assert(line =~= key + seq!['='] + v);
            law_last_value_holds(rest, key, v, key);
            assert(rest.push(line) =~= lines);
        } else {
            lemma_other_line(rest, line, key);
            assert(rest.push(line) =~= lines);
        }
        assert(line == lines[lines.len() - 1]);
        if last_line_says(lines, key, value) {
            let i = choose|i: int|
                0 <= i < lines.len() && #[trigger] lines[i] == key + seq!['='] + value && forall|
                    j: int,
                |
                    i < j < lines.len() ==> !begins_with_key(#[trigger] lines[j], key);
            let said = key + seq!['='] + value;
            assert(said.take(key.len() as int) =~= key);
            assert(begins_with_key(said, key));
            if i == lines.len() - 1 {
                assert(line.skip(key.len() as int + 1) =~= value);
            } else {
                assert(!begins_with_key(lines[lines.len() - 1], key));
                assert(rest[i] == lines[i]);
                assert forall|j: int| i < j < rest.len() implies !begins_with_key(
                    #[trigger] rest[j],
                    key,
                ) by {
                    assert(rest[j] == lines[j]);
                }
                assert(last_line_says(rest, key, value));
            }
        }
        if no_line_says(lines, key) {
            assert(!begins_with_key(lines[lines.len() - 1], key));
            assert forall|j: int| 0 <= j < rest.len() implies !begins_with_key(
                #[trigger] rest[j],
                key,
            ) by {
                assert(rest[j] == lines[j]);
            }
        }
    }
}

proof fn lemma_other_line(lines: Seq<Seq<char>>, line: Seq<char>, key: Seq<char>)
    requires
        !begins_with_key(line, key),
    ensures
        param(lines.push(line), key) == param(lines, key),
{
    assert(lines.push(line).drop_last() =~= lines);
    let i = text::index_of(line, '=') as int;
    text::lemma_index_of(line, '=');
}

/// Every setting is read from the line that names it: its value is the one of the last
/// such line, a fixed one where that is none, and the old one where no line names it.
#[verifier::rlimit(50)]
pub proof fn law_settings_are_read(
    client: &mut HahApiClient,
    response: &str,
    local_time: i64,
    settings: ServerSettings,
    n: int,
    value: Seq<char>,
)
    requires
        call_ensures(
            HahApiClient::parse_server_settings,
            (client, response, local_time),
            Ok(settings),
        ),
    ensures
        last_line_says(text::lines(response@), "min_client_build"@, value)
            ==> settings@.min_client_build == (match text::parsed_signed(
            value,
            i32::MIN as int,
            i32::MAX as int,
        ) {
            Some(v) => v,
            None => 0,
        }),
        no_line_says(text::lines(response@), "min_client_build"@)
            ==> settings@.min_client_build == old(client).server_settings@.min_client_build,
        i32::MIN <= n <= i32::MAX && last_line_says(text::lines(response@), "min_client_build"@, text::decimal_int(n))
            ==> settings@.min_client_build == n,
        last_line_says(text::lines(response@), "cur_client_build"@, value)
            ==> settings@.cur_client_build == (match text::parsed_signed(
            value,
            i32::MIN as int,
            i32::MAX as int,
        ) {
            Some(v) => v,
            None => 0,
        }),
        no_line_says(text::lines(response@), "cur_client_build"@)
            ==> settings@.cur_client_build == old(client).server_settings@.cur_client_build,
        i32::MIN <= n <= i32::MAX && last_line_says(text::lines(response@), "cur_client_build"@, text::decimal_int(n))
            ==> settings@.cur_client_build == n,
        last_line_says(text::lines(response@), "max_files_xfer"@, value) ==> settings@.max_files_xfer == (match text::parsed_signed(
            value,
            i32::MIN as int,
            i32::MAX as int,
        ) {
            Some(v) => v,
            None => 20,
        }),
        no_line_says(text::lines(response@), "max_files_xfer"@) ==> settings@.max_files_xfer == old(client).server_settings@.max_files_xfer,
        i32::MIN <= n <= i32::MAX && last_line_says(text::lines(response@), "max_files_xfer"@, text::decimal_int(n))
            ==> settings@.max_files_xfer == n,
        last_line_says(text::lines(response@), "max_kb_xfer"@, value) ==> settings@.max_kb_xfer == (match text::parsed_signed(
            value,
            i32::MIN as int,
            i32::MAX as int,
        ) {
            Some(v) => v,
            None => 100000,
        }),
        no_line_says(text::lines(response@), "max_kb_xfer"@) ==> settings@.max_kb_xfer == old(client).server_settings@.max_kb_xfer,
        i32::MIN <= n <= i32::MAX && last_line_says(text::lines(response@), "max_kb_xfer"@, text::decimal_int(n))
            ==> settings@.max_kb_xfer == n,
        last_line_says(text::lines(response@), "throttle_bytes"@, value)
            ==> settings@.throttle_bytes == (match text::parsed_signed(
            value,
            i64::MIN as int,
            i64::MAX as int,
        ) {
            Some(v) => v,
            None => -1,
        }),
        no_line_says(text::lines(response@), "throttle_bytes"@) ==> settings@.throttle_bytes
            == old(client).server_settings@.throttle_bytes,
        i64::MIN <= n <= i64::MAX && last_line_says(text::lines(response@), "throttle_bytes"@, text::decimal_int(n))
            ==> settings@.throttle_bytes == n,
        last_line_says(text::lines(response@), "request_valid_base"@, value)
            ==> settings@.request_valid_base == (match text::parsed_signed(
            value,
            i64::MIN as int,
            i64::MAX as int,
        ) {
            Some(v) => v,
            None => 0,
        }),
        no_line_says(text::lines(response@), "request_valid_base"@)
            ==> settings@.request_valid_base == old(client).server_settings@.request_valid_base,
        i64::MIN <= n <= i64::MAX && last_line_says(text::lines(response@), "request_valid_base"@, text::decimal_int(n))
            ==> settings@.request_valid_base == n,
        last_line_says(text::lines(response@), "rpc_server_port"@, value)
            ==> settings@.rpc_server_port == (match text::parsed_unsigned(
            value,
            u16::MAX as int,
        ) {
            Some(v) => v,
            None => 80,
        }),
        no_line_says(text::lines(response@), "rpc_server_port"@) ==> settings@.rpc_server_port
            == old(client).server_settings@.rpc_server_port,
        0 <= n <= u16::MAX && last_line_says(text::lines(response@), "rpc_server_port"@, text::decimal_int(n))
            ==> settings@.rpc_server_port == n,
        last_line_says(text::lines(response@), "disklimit_bytes"@, value)
            ==> settings@.disk_limit_bytes == (match text::parsed_unsigned(
            value,
            u64::MAX as int,
        ) {
            Some(v) => v,
            None => 0,
        }),
        no_line_says(text::lines(response@), "disklimit_bytes"@) ==> settings@.disk_limit_bytes
            == old(client).server_settings@.disk_limit_bytes,
        0 <= n <= u64::MAX && last_line_says(text::lines(response@), "disklimit_bytes"@, text::decimal_int(n))
            ==> settings@.disk_limit_bytes == n,
        last_line_says(text::lines(response@), "diskremaining_bytes"@, value)
            ==> settings@.disk_remaining_bytes == (match text::parsed_unsigned(
            value,
            u64::MAX as int,
        ) {
            Some(v) => v,
            None => 0,
        }),
        no_line_says(text::lines(response@), "diskremaining_bytes"@)
            ==> settings@.disk_remaining_bytes == old(client).server_settings@.disk_remaining_bytes,
        0 <= n <= u64::MAX && last_line_says(text::lines(response@), "diskremaining_bytes"@, text::decimal_int(n))
            ==> settings@.disk_remaining_bytes == n,
        last_line_says(text::lines(response@), "filesystem_blocksize"@, value)
            ==> settings@.filesystem_blocksize == (match text::parsed_unsigned(
            value,
            u64::MAX as int,
        ) {
            Some(v) => v,
            None => 4096,
        }),
        no_line_says(text::lines(response@), "filesystem_blocksize"@)
            ==> settings@.filesystem_blocksize == old(client).server_settings@.filesystem_blocksize,
        0 <= n <= u64::MAX && last_line_says(text::lines(response@), "filesystem_blocksize"@, text::decimal_int(n))
            ==> settings@.filesystem_blocksize == n,
        last_line_says(text::lines(response@), "max_allowed_filesize"@, value)
            ==> settings@.max_allowed_filesize == (match text::parsed_unsigned(
            value,
            u64::MAX as int,
        ) {
            Some(v) => v,
            None => 1073741824,
        }),
        no_line_says(text::lines(response@), "max_allowed_filesize"@)
            ==> settings@.max_allowed_filesize == old(client).server_settings@.max_allowed_filesize,
        0 <= n <= u64::MAX && last_line_says(text::lines(response@), "max_allowed_filesize"@, text::decimal_int(n))
            ==> settings@.max_allowed_filesize == n,
        last_line_says(text::lines(response@), "port"@, value) ==> settings@.port
            == (match text::parsed_unsigned(
            value,
            65535,
        ) {
            Some(v) => v,
            None => old(client).config.port as int,
        }),
        no_line_says(text::lines(response@), "port"@) ==> settings@.port
            == old(client).server_settings@.port,
        0 <= n <= 65535 && last_line_says(text::lines(response@), "port"@, text::decimal_int(n))
            ==> settings@.port == n,
        last_line_says(text::lines(response@), "image_server"@, value) ==> settings@.image_server == value,
        no_line_says(text::lines(response@), "image_server"@) ==> settings@.image_server == old(client).server_settings@.image_server,
        last_line_says(text::lines(response@), "name"@, value) ==> settings@.name == value,
        no_line_says(text::lines(response@), "name"@) ==> settings@.name
            == old(client).server_settings@.name,
        last_line_says(text::lines(response@), "host"@, value) ==> settings@.host == value,
        no_line_says(text::lines(response@), "host"@) ==> settings@.host
            == old(client).server_settings@.host,
        last_line_says(text::lines(response@), "rpc_path"@, value) ==> settings@.rpc_path == value,
        no_line_says(text::lines(response@), "rpc_path"@) ==> settings@.rpc_path
            == old(client).server_settings@.rpc_path,
        last_line_says(text::lines(response@), "disableBrowseLoad"@, value)
            ==> settings@.disable_browse_load == (
        value == seq!['1']),
        no_line_says(text::lines(response@), "disableBrowseLoad"@) ==> settings@.disable_browse_load
            == old(client).server_settings@.disable_browse_load,
        last_line_says(text::lines(response@), "rpc_server_ip"@, value) ==> settings@.rpc_server_ips
            == text::split(value, ';').filter(|part: Seq<char>| part.len() > 0),
        no_line_says(text::lines(response@), "rpc_server_ip"@) ==> settings@.rpc_server_ips
            == old(client).server_settings@.rpc_server_ips,
        last_line_says(text::lines(response@), "static_ranges"@, value)
            ==> forall|range: Seq<char>| #[trigger]
            settings@.static_ranges.contains(range) <==> text::split(value, ';').contains(range)
                && text::byte_len(range) == 4,
        no_line_says(text::lines(response@), "static_ranges"@) ==> settings@.static_ranges
            == old(client).server_settings@.static_ranges,
        last_line_says(text::lines(response@), "static_range_count"@, text::decimal_int(n))
            && i32::MIN <= n
            <= i32::MAX ==> settings@.static_range_count == n,
        no_line_says(text::lines(response@), "static_range_count"@)
            && no_line_says(text::lines(response@), "static_ranges"@)
            ==> settings@.static_range_count == old(client).server_settings@.static_range_count,
        no_line_says(text::lines(response@), "static_range_count"@) && last_line_says(
            text::lines(response@),
            "static_ranges"@,
            value,
        ) && settings@.static_ranges.len() <= i32::MAX ==> settings@.static_range_count
            == settings@.static_ranges.len(),
        settings@.request_server == old(client).server_settings@.request_server,
        last_line_says(text::lines(response@), "server_time"@, text::decimal_int(n))
            && i32::MIN <= n
            - local_time <= i32::MAX && i64::MIN <= n <= i64::MAX
            ==> final(client).server_time_delta == n - local_time,
        no_line_says(text::lines(response@), "server_time"@) ==> final(client).server_time_delta
            == old(client).server_time_delta,
{
    let lines = text::lines(response@);
    reveal_strlit("min_client_build");
    assert(!"min_client_build"@.contains('='));
    law_values_are_found(lines, "min_client_build"@, value);
    law_values_are_found(lines, "min_client_build"@, text::decimal_int(n));
    reveal_strlit("cur_client_build");
    assert(!"cur_client_build"@.contains('='));
    law_values_are_found(lines, "cur_client_build"@, value);
    law_values_are_found(lines, "cur_client_build"@, text::decimal_int(n));
    reveal_strlit("max_files_xfer");
    assert(!"max_files_xfer"@.contains('='));
    law_values_are_found(lines, "max_files_xfer"@, value);
    law_values_are_found(lines, "max_files_xfer"@, text::decimal_int(n));
    reveal_strlit("max_kb_xfer");
    assert(!"max_kb_xfer"@.contains('='));
    law_values_are_found(lines, "max_kb_xfer"@, value);
    law_values_are_found(lines, "max_kb_xfer"@, text::decimal_int(n));
    reveal_strlit("throttle_bytes");
    assert(!"throttle_bytes"@.contains('='));
    law_values_are_found(lines, "throttle_bytes"@, value);
    law_values_are_found(lines, "throttle_bytes"@, text::decimal_int(n));
    reveal_strlit("request_valid_base");
    assert(!"request_valid_base"@.contains('='));
    law_values_are_found(lines, "request_valid_base"@, value);
    law_values_are_found(lines, "request_valid_base"@, text::decimal_int(n));
    reveal_strlit("rpc_server_port");
    assert(!"rpc_server_port"@.contains('='));
    law_values_are_found(lines, "rpc_server_port"@, value);
    law_values_are_found(lines, "rpc_server_port"@, text::decimal_int(n));
    reveal_strlit("disklimit_bytes");
    assert(!"disklimit_bytes"@.contains('='));
    law_values_are_found(lines, "disklimit_bytes"@, value);
    law_values_are_found(lines, "disklimit_bytes"@, text::decimal_int(n));
    reveal_strlit("diskremaining_bytes");
    assert(!"diskremaining_bytes"@.contains('='));
    law_values_are_found(lines, "diskremaining_bytes"@, value);
    law_values_are_found(lines, "diskremaining_bytes"@, text::decimal_int(n));
    reveal_strlit("filesystem_blocksize");
    assert(!"filesystem_blocksize"@.contains('='));
    law_values_are_found(lines, "filesystem_blocksize"@, value);
    law_values_are_found(lines, "filesystem_blocksize"@, text::decimal_int(n));
    reveal_strlit("max_allowed_filesize");
    assert(!"max_allowed_filesize"@.contains('='));
    law_values_are_found(lines, "max_allowed_filesize"@, value);
    law_values_are_found(lines, "max_allowed_filesize"@, text::decimal_int(n));
    reveal_strlit("image_server");
    assert(!"image_server"@.contains('='));
    law_values_are_found(lines, "image_server"@, value);
    law_values_are_found(lines, "image_server"@, text::decimal_int(n));
    reveal_strlit("name");
    assert(!"name"@.contains('='));
    law_values_are_found(lines, "name"@, value);
    law_values_are_found(lines, "name"@, text::decimal_int(n));
    reveal_strlit("host");
    assert(!"host"@.contains('='));
    law_values_are_found(lines, "host"@, value);
    law_values_are_found(lines, "host"@, text::decimal_int(n));
    reveal_strlit("rpc_path");
    assert(!"rpc_path"@.contains('='));
    law_values_are_found(lines, "rpc_path"@, value);
    law_values_are_found(lines, "rpc_path"@, text::decimal_int(n));
    reveal_strlit("port");
    assert(!"port"@.contains('='));
    law_values_are_found(lines, "port"@, value);
    law_values_are_found(lines, "port"@, text::decimal_int(n));
    reveal_strlit("rpc_server_ip");
    assert(!"rpc_server_ip"@.contains('='));
    law_values_are_found(lines, "rpc_server_ip"@, value);
    law_values_are_found(lines, "rpc_server_ip"@, text::decimal_int(n));
    reveal_strlit("static_ranges");
    assert(!"static_ranges"@.contains('='));
    law_values_are_found(lines, "static_ranges"@, value);
    law_values_are_found(lines, "static_ranges"@, text::decimal_int(n));
    reveal_strlit("static_range_count");
    assert(!"static_range_count"@.contains('='));
    law_values_are_found(lines, "static_range_count"@, value);
    law_values_are_found(lines, "static_range_count"@, text::decimal_int(n));
    reveal_strlit("disableBrowseLoad");
    assert(!"disableBrowseLoad"@.contains('='));
    law_values_are_found(lines, "disableBrowseLoad"@, value);
    law_values_are_found(lines, "disableBrowseLoad"@, text::decimal_int(n));
    reveal_strlit("server_time");
    assert(!"server_time"@.contains('='));
    law_values_are_found(lines, "server_time"@, value);
    law_values_are_found(lines, "server_time"@, text::decimal_int(n));
    reveal_strlit("1");
    assert("1"@ =~= seq!['1']);
    lemma_reads_back(n);
    text::law_numbers_are_within_limits(value, i32::MIN as int, i32::MAX as int);
    text::law_numbers_are_within_limits(value, i64::MIN as int, i64::MAX as int);
    text::law_numbers_are_within_limits(value, 0, u16::MAX as int);
    text::law_numbers_are_within_limits(value, 0, u64::MAX as int);
    lemma_non_empty(text::split(value, ';'));
    assert forall|range: Seq<char>| #[trigger]
        four_byte_parts(text::split(value, ';')).contains(range) <==> text::split(
            value,
            ';',
        ).contains(range) && text::byte_len(range) == 4 by {
        lemma_four_byte_parts(text::split(value, ';'), range);
    }
}

proof fn lemma_reads_back(n: int)
    ensures
        i32::MIN <= n <= i32::MAX ==> text::parsed_signed(
            text::decimal_int(n),
            i32::MIN as int,
            i32::MAX as int,
        ) == Some(n),
        i64::MIN <= n <= i64::MAX ==> text::parsed_signed(
            text::decimal_int(n),
            i64::MIN as int,
            i64::MAX as int,
        ) == Some(n),
        0 <= n <= u16::MAX ==> text::parsed_unsigned(text::decimal_int(n), u16::MAX as int) == Some(
            n,
        ),
        0 <= n <= u64::MAX ==> text::parsed_unsigned(text::decimal_int(n), u64::MAX as int) == Some(
            n,
        ),
{
    if i32::MIN <= n <= i32::MAX {
        text::law_decimal_reads_back(n, i32::MIN as int, i32::MAX as int);
    }
    if i64::MIN <= n <= i64::MAX {
        text::law_decimal_reads_back(n, i64::MIN as int, i64::MAX as int);
    }
    if 0 <= n <= u16::MAX {
        text::law_decimal_reads_back(n, 0, u16::MAX as int);
    }
    if 0 <= n <= u64::MAX {
        text::law_decimal_reads_back(n, 0, u64::MAX as int);
    }
}

proof fn lemma_non_empty(parts: Seq<Seq<char>>)
    ensures
        non_empty(parts) == parts.filter(|part: Seq<char>| part.len() > 0),
    decreases parts.len(),
{
    reveal(Seq::filter);
    if parts.len() > 0 {
        lemma_non_empty(parts.drop_last());
    }
}

/// A login: a refusal of the server is an error, an expired key leads to one more try,
/// a server that asks for a newer client is an error, and else the client works with the
/// settings of the reply.
pub proof fn law_login_is_answered(
    client: &mut HahApiClient,
    reply: &str,
    refreshed: bool,
    local_time: i64,
    answer: Result<LoginStep, ApiError>,
    value: Seq<char>,
)
    requires
        call_ensures(HahApiClient::client_login, (client, reply, refreshed, local_time), answer),
    ensures
        text::starts_with(reply@, "FAIL"@) ==> {
            &&& answer matches Err(ApiError::AuthFailed(said))
            &&& said@ == reply@
            &&& *final(client) == *old(client)
        },
        text::starts_with(reply@, "KEY_EXPIRED"@) && !refreshed && !text::starts_with(
            reply@,
            "FAIL"@,
        ) ==> answer == Ok::<LoginStep, ApiError>(LoginStep::RefreshTime) && *final(client)
            == *old(client),
        !text::starts_with(reply@, "FAIL"@) && (refreshed || !text::starts_with(
            reply@,
            "KEY_EXPIRED"@,
        )) && last_line_says(text::lines(reply@), "min_client_build"@, value) ==> {
            let build = text::parsed_signed(value, -0x8000_0000, 0x7fff_ffff);
            &&& build is Some && build->0 > 176 ==> {
                &&& answer matches Err(ApiError::ServerError(said))
                &&& said@ == "Client too old. Required build: "@ + text::decimal_int(build->0)
                    + ", current: 176"@
                &&& final(client).server_settings == old(client).server_settings
            }
            &&& build is None || build->0 <= 176 ==> {
                &&& answer matches Ok(LoginStep::LoggedIn(settings))
                &&& final(client).server_settings@ == settings@
            }
        },
        !text::starts_with(reply@, "FAIL"@) && (refreshed || !text::starts_with(
            reply@,
            "KEY_EXPIRED"@,
        )) && no_line_says(text::lines(reply@), "min_client_build"@) ==> {
            &&& answer matches Ok(LoginStep::LoggedIn(settings))
            &&& final(client).server_settings@ == settings@
        },
{
    reveal_strlit("min_client_build");
    assert(!"min_client_build"@.contains('='));
    law_values_are_found(text::lines(reply@), "min_client_build"@, value);
    lemma_build_text();
    let build = text::parsed_signed(value, -0x8000_0000, 0x7fff_ffff);
    text::law_numbers_are_within_limits(value, -0x8000_0000, 0x7fff_ffff);
    let words = "Client too old. Required build: "@ + text::decimal_int(build->0);
    assert(words + ", current: 176"@ =~= words + ", current: "@ + text::decimal_int(176));
}

proof fn lemma_build_text()
    ensures
        ", current: 176"@ == ", current: "@ + text::decimal_int(176),
        "Client build 176 is too old. Minimum required: "@ == "Client build "@ + text::decimal_int(
            176,
        ) + " is too old. Minimum required: "@,
        text::decimal_int(176) == "176"@,
{
    reveal_strlit(", current: 176");
    reveal_strlit(", current: ");
    reveal_strlit("Client build 176 is too old. Minimum required: ");
    reveal_strlit("Client build ");
    reveal_strlit(" is too old. Minimum required: ");
    reveal_strlit("176");
    reveal_strlit("0123456789");
    text::law_decimal(17, 6);
    text::law_decimal(1, 7);
    text::law_decimal(0, 1);
    assert(text::decimal_int(176) =~= "176"@);
    assert(", current: 176"@ =~= ", current: "@ + "176"@);
    assert("Client build 176 is too old. Minimum required: "@ =~= "Client build "@ + "176"@
        + " is too old. Minimum required: "@);
}

/// A request is signed with the SHA-1 hash, in hexadecimal, of a text that names the
/// action, what belongs to it, the client and the time, and ends with the whole key of
/// the client.
pub proof fn law_requests_are_signed(
    client: HahApiClient,
    action: &str,
    additional: &str,
    local_time: i64,
    signed: (i64, String),
)
    requires
        call_ensures(
            HahApiClient::generate_auth,
            (&client, action, additional, local_time),
            signed,
        ),
    ensures
        signed.0 == local_time + client.server_time_delta,
        signed.1@ == digest::hex_of(
            digest::sha1_of(
                encode_utf8(
                    "hentai@home-"@ + action@ + "-"@ + additional@ + "-"@ + client.config.client_id@
                        + "-"@ + text::decimal_int(local_time + client.server_time_delta) + (
                    "-"@ + client.config.client_key@),
                ),
            ),
        ),
{
    let words = "hentai@home-"@ + action@ + "-"@ + additional@ + "-"@ + client.config.client_id@
        + "-"@ + text::decimal_int(local_time + client.server_time_delta);
    assert(words + ("-"@ + client.config.client_key@) =~= words + "-"@ + client.config.client_key@);
}

/// Where a request goes, what it asks for, and how it is signed: the address of a request
/// names the server, the path, the build of the client, the action, what belongs to it,
/// the client and the time, and ends with the signature of just these.
pub proof fn law_requests_are_addressed(
    client: &mut HahApiClient,
    action: &str,
    additional: &str,
    local_time: i64,
    url: String,
    host: Seq<char>,
    signed: (i64, String),
)
    requires
        call_ensures(HahApiClient::build_url, (client, action, additional, local_time), url),
        call_ensures(
            HahApiClient::generate_auth,
            (&*old(client), action, additional, local_time),
            signed,
        ),
        host == old(client).next_host(),
    ensures
        url@ == "http://"@ + host + (if old(client).server_settings.rpc_path@.len() == 0 {
            "/15/rpc?"@
        } else {
            "/"@ + old(client).server_settings.rpc_path@
        }) + "clientbuild="@ + "176"@ + "&act="@ + action@ + "&add="@ + additional@ + "&cid="@
            + old(
            client,
        ).config.client_id@ + "&acttime="@ + text::decimal_int(signed.0 as int) + "&actkey="@
            + signed.1@,
        final(client).config == old(client).config,
        final(client).server_settings == old(client).server_settings,
        final(client).server_time_delta == old(client).server_time_delta,
        final(client).last_failed_rpc_server == old(client).last_failed_rpc_server,
{
    lemma_build_text();
}

/// The requests of the download queue go to a path of their own, and are addressed and
/// signed as the others.
pub proof fn law_queue_requests_are_addressed(
    client: &mut HahApiClient,
    action: &str,
    additional: &str,
    local_time: i64,
    url: String,
    host: Seq<char>,
    signed: (i64, String),
)
    requires
        call_ensures(
            HahApiClient::build_download_url,
            (client, action, additional, local_time),
            url,
        ),
        call_ensures(
            HahApiClient::generate_auth,
            (&*old(client), action, additional, local_time),
            signed,
        ),
        host == old(client).next_host(),
    ensures
        url@ == "http://"@ + host + "/15/dl?"@ + "clientbuild="@ + "176"@ + "&act="@ + action@
            + "&add="@ + additional@ + "&cid="@ + old(client).config.client_id@ + "&acttime="@
            + text::decimal_int(signed.0 as int) + "&actkey="@ + signed.1@,
{
    lemma_build_text();
}

/// The server that requests go to: the current one while there is one; else the first of
/// the list that is not the one that failed last, which becomes the current one; the first
/// of the list where there is no other; and the well known one where the list is empty. A
/// port other than 80 stands behind the name.
pub proof fn law_servers_are_chosen(
    client: &mut HahApiClient,
    host: String,
    i: int,
)
    requires
        call_ensures(HahApiClient::get_rpc_server_host, (client,), host),
    ensures
        ({
            let ips = old(client).server_settings@.rpc_server_ips;
            let port = old(client).server_settings.rpc_server_port;
            let failed = web::optional_text(old(client).last_failed_rpc_server);
            let named = |server: Seq<char>|
                if port == 80 {
                    server
                } else {
                    server + ":"@ + text::decimal(port as nat)
                };
            let now = web::optional_text(final(client).current_rpc_server);
            &&& old(client).current_rpc_server matches Some(server) ==> host@ == named(server@)
                && now == Some(server@)
            &&& old(client).current_rpc_server is None && ips.len() == 0 ==> host@
                == "rpc.hentaiathome.net"@ && now is None
            &&& old(client).current_rpc_server is None && 0 <= i < ips.len() && Some(ips[i])
                != failed && (forall|j: int| 0 <= j < i ==> Some(#[trigger] ips[j]) == failed)
                ==> host@ == named(ips[i]) && now == Some(ips[i])
            &&& old(client).current_rpc_server is None && ips.len() > 0 && (forall|j: int|
                0 <= j < ips.len() ==> Some(#[trigger] ips[j]) == failed) ==> host@ == ips[0] && now
                == Some(ips[0])
        }),
{
    let ips = old(client).server_settings@.rpc_server_ips;
    let failed = web::optional_text(old(client).last_failed_rpc_server);
    if 0 <= i < ips.len() && Some(ips[i]) != failed && (forall|j: int|
        0 <= j < i ==> Some(#[trigger] ips[j]) == failed) {
        lemma_first_other(ips, failed, i);
    }
    if ips.len() > 0 && forall|j: int| 0 <= j < ips.len() ==> Some(#[trigger] ips[j]) == failed {
        lemma_first_other(ips, failed, ips.len() as int);
    }
}

proof fn lemma_first_other(ips: Seq<Seq<char>>, failed: Option<Seq<char>>, i: int)
    requires
        0 <= i <= ips.len(),
        forall|j: int| 0 <= j < i ==> Some(#[trigger] ips[j]) == failed,
        i < ips.len() ==> Some(ips[i]) != failed,
    ensures
        first_other(ips, failed) == (if i < ips.len() {
            Some(ips[i])
        } else {
            None
        }),
    decreases ips.len(),
{
    if ips.len() > 0 && i > 0 {
        let rest = ips.drop_first();
        assert(Some(ips[0]) == failed);
        assert forall|j: int| 0 <= j < i - 1 implies Some(#[trigger] rest[j]) == failed by {
            assert(rest[j] == ips[j + 1]);
        }
        lemma_first_other(rest, failed, i - 1);
    }
}

/// A server that has failed is left, and only the current one can fail; once failures are
/// forgotten, the choice is free again.
pub proof fn law_failures_are_marked(
    client: &mut HahApiClient,
    host: &str,
    other: &mut HahApiClient,
)
    requires
        call_ensures(HahApiClient::mark_rpc_server_failed, (client, host), ()),
        call_ensures(HahApiClient::clear_rpc_server_failure, (other,), ()),
    ensures
        old(client).current_rpc_server matches Some(server) ==> text::contains(server@, host@)
            ==> final(client).current_rpc_server is None && final(client).last_failed_rpc_server
            == Some(server),
        old(client).current_rpc_server is None ==> *final(client) == *old(client),
        old(client).current_rpc_server matches Some(server) ==> !text::contains(server@, host@)
            ==> *final(client) == *old(client),
        final(client).config == old(client).config,
        final(client).server_settings == old(client).server_settings,
        final(client).server_time_delta == old(client).server_time_delta,
        final(other).last_failed_rpc_server is None,
        old(other).last_failed_rpc_server is Some ==> final(other).current_rpc_server is None,
        old(other).last_failed_rpc_server is None ==> *final(other) == *old(other),
{
}

/// A login reads the reply as any other reply of settings is read, and the client works
/// with the settings that it read.
pub proof fn law_login_reads_the_settings(
    client: &mut HahApiClient,
    other: &mut HahApiClient,
    reply: &str,
    refreshed: bool,
    local_time: i64,
    settings: ServerSettings,
    read: ServerSettings,
)
    requires
        *old(client) == *old(other),
        call_ensures(
            HahApiClient::client_login,
            (client, reply, refreshed, local_time),
            Ok(LoginStep::LoggedIn(settings)),
        ),
        call_ensures(
            HahApiClient::parse_server_settings,
            (other, reply, local_time),
            Ok(read),
        ),
    ensures
        settings@ == read@,
        final(client).server_settings@ == read@,
        final(client).server_time_delta == final(other).server_time_delta,
        final(client).config == old(client).config,
{
}

/// A line of the file list is a page, an index, a resolution, a hash, a type and a name
/// with one space after each but the name, which may hold spaces. A page or an index that
/// is no number counts as 0, and the hash `unknown` as none. A line of fewer parts lists
/// no file.
pub proof fn law_file_lines_are_read(
    page: Seq<char>,
    index: Seq<char>,
    xres: Seq<char>,
    hash: Seq<char>,
    kind: Seq<char>,
    name: Seq<char>,
    n: i32,
    short: Seq<Seq<char>>,
)
    requires
        !page.contains(' '),
        !index.contains(' '),
        !xres.contains(' '),
        !hash.contains(' '),
        !kind.contains(' '),
        0 < short.len() < 6,
        forall|i: int| 0 <= i < short.len() ==> !(#[trigger] short[i]).contains(' '),
    ensures
        ({
            let line = page + seq![' '] + (index + seq![' '] + (xres + seq![' '] + (hash + seq![' ']
                + (kind + seq![' '] + name))));
            let read = file_line(line)->0;
            &&& file_line(line) is Some
            &&& page == text::decimal_int(n as int) ==> read.page == n
            &&& text::parsed_signed(page, i32::MIN as int, i32::MAX as int) is None ==> read.page
                == 0
            &&& text::parsed_signed(page, i32::MIN as int, i32::MAX as int) matches Some(p)
                ==> read.page == p
            &&& index == text::decimal_int(n as int) ==> read.fileindex == n
            &&& text::parsed_signed(index, i32::MIN as int, i32::MAX as int) is None
                ==> read.fileindex == 0
            &&& text::parsed_signed(index, i32::MIN as int, i32::MAX as int) matches Some(p)
                ==> read.fileindex == p
            &&& read.xres == xres
            &&& hash == "unknown"@ ==> read.sha1hash is None
            &&& hash != "unknown"@ ==> read.sha1hash == Some(hash)
            &&& read.filetype == kind
            &&& read.filename == name
        }),
        file_line(text::join(short, seq![' '])) is None,
{
    let from_kind = kind + seq![' '] + name;
    let from_hash = hash + seq![' '] + from_kind;
    let from_xres = xres + seq![' '] + from_hash;
    let from_index = index + seq![' '] + from_xres;
    text::law_split_at_most(page, ' ', from_index, 4);
    text::law_split_at_most(index, ' ', from_xres, 3);
    text::law_split_at_most(xres, ' ', from_hash, 2);
    text::law_split_at_most(hash, ' ', from_kind, 1);
    text::law_split_at_most(kind, ' ', name, 0);
    let line = page + seq![' '] + from_index;
    let parts = text::split_at_most(line, ' ', 6);
    assert(parts =~= seq![page, index, xres, hash, kind, name]);
    text::law_numbers_are_within_limits(page, i32::MIN as int, i32::MAX as int);
    text::law_numbers_are_within_limits(index, i32::MIN as int, i32::MAX as int);
    text::law_decimal_reads_back(n as int, i32::MIN as int, i32::MAX as int);
    lemma_few_parts(short, 6);
}

proof fn lemma_few_parts(parts: Seq<Seq<char>>, n: nat)
    requires
        0 < parts.len() <= n,
        forall|i: int| 0 <= i < parts.len() ==> !(#[trigger] parts[i]).contains(' '),
    ensures
        text::split_at_most(text::join(parts, seq![' ']), ' ', n) == parts,
    decreases parts.len(),
{
    if parts.len() == 1 {
        text::law_split_at_most(parts[0], ' ', Seq::empty(), (n - 1) as nat);
        assert(parts =~= seq![parts[0]]);
    } else {
        let rest = parts.drop_first();
        assert forall|i: int| 0 <= i < rest.len() implies !(#[trigger] rest[i]).contains(' ') by {
            assert(rest[i] == parts[i + 1]);
        }
        lemma_few_parts(rest, (n - 1) as nat);
        text::lemma_join_first(parts, seq![' ']);
        text::law_split_at_most(
            parts[0],
            ' ',
            text::join(rest, seq![' ']),
            (n - 2) as nat,
        );
        assert(parts =~= seq![parts[0]] + rest);
    }
}

/// The reply about a gallery: a header up to `FILELIST`, a list of files up to
/// `INFORMATION`, and the information. Every line between the two that lists a file gives
/// one file, in the order of the lines, and no other line gives one: of n such lines come
/// n files. The information is all lines after it.
pub proof fn law_all_files_are_listed(
    client: HahApiClient,
    reply: &str,
    answer: Result<Option<GalleryMeta>, ApiError>,
    meta: GalleryMeta,
    head: Seq<Seq<char>>,
    list: Seq<Seq<char>>,
    information: Seq<Seq<char>>,
)
    requires
        call_ensures(HahApiClient::parse_gallery_meta, (&client, reply), answer) || call_ensures(
            HahApiClient::fetch_download_queue,
            (&client, reply),
            answer,
        ),
        answer == Ok::<Option<GalleryMeta>, ApiError>(Some(meta)),
        !head.contains("FILELIST"@),
        !list.contains("INFORMATION"@),
    ensures
        text::lines(reply@) == head.push("FILELIST"@) + list.push("INFORMATION"@) + information
            ==> {
            &&& meta@.files == list.filter(|line: Seq<char>| file_line(line) is Some).map_values(
                |line: Seq<char>| file_line(line)->0,
            )
            &&& meta@.information == text::ended(information)
        },
        text::lines(reply@) == head.push("FILELIST"@) + list ==> {
            &&& meta@.files == list.filter(|line: Seq<char>| file_line(line) is Some).map_values(
                |line: Seq<char>| file_line(line)->0,
            )
            &&& meta@.information == Seq::<char>::empty()
        },
        text::lines(reply@) == head.push("FILELIST"@) + list.push("INFORMATION"@) + information && (
        forall|i: int| 0 <= i < list.len() ==> file_line(#[trigger] list[i]) is Some) ==> {
            &&& meta.files@.len() == list.len()
            &&& forall|i: int|
                0 <= i < list.len() ==> (#[trigger] meta.files@[i])@ == file_line(list[i])->0
        },
        text::lines(reply@) == head ==> meta.files@.len() == 0 && meta.information@.len() == 0,
{
    lemma_head(head);
    let opened = head.push("FILELIST"@);
    assert(opened.drop_last() =~= head);
    let header = meta_lines(head).1;
    assert(meta_lines(opened) == (MetaSection::FileList, header));
    lemma_list(opened, list);
    let listed = opened + list;
    let closed = listed.push("INFORMATION"@);
    assert(closed.drop_last() =~= listed);
    assert(closed =~= opened + list.push("INFORMATION"@));
    lemma_information(closed, information);
    if forall|i: int| 0 <= i < list.len() ==> file_line(#[trigger] list[i]) is Some {
        lemma_all_kept(list);
    }
    assert(meta@.files.len() == meta.files@.len());
    assert(forall|i: int|
        0 <= i < meta.files@.len() ==> (#[trigger] meta.files@[i])@ == meta@.files[i]);
}

proof fn lemma_all_kept(list: Seq<Seq<char>>)
    requires
        forall|i: int| 0 <= i < list.len() ==> file_line(#[trigger] list[i]) is Some,
    ensures
        list.filter(|line: Seq<char>| file_line(line) is Some) == list,
    decreases list.len(),
{
    reveal(Seq::filter);
    if list.len() > 0 {
        let rest = list.drop_last();
        assert forall|i: int| 0 <= i < rest.len() implies file_line(#[trigger] rest[i]) is Some by {
            assert(rest[i] == list[i]);
        }
        lemma_all_kept(rest);
        assert(list =~= rest.push(list.last()));
    }
}

proof fn lemma_head(head: Seq<Seq<char>>)
    requires
        !head.contains("FILELIST"@),
    ensures
        meta_lines(head).0 is Header,
        meta_lines(head).1.files == Seq::<FileMetaView>::empty(),
        meta_lines(head).1.information == Seq::<char>::empty(),
    decreases head.len(),
{
    if head.len() > 0 {
        let rest = head.drop_last();
        assert forall|i: int| 0 <= i < rest.len() implies rest[i] != "FILELIST"@ by {
            assert(head[i] == rest[i]);
        }
        lemma_head(rest);
        assert(head.contains(head.last()));
    }
}

proof fn lemma_list(opened: Seq<Seq<char>>, list: Seq<Seq<char>>)
    requires
        meta_lines(opened).0 is FileList,
        meta_lines(opened).1.files == Seq::<FileMetaView>::empty(),
        !list.contains("INFORMATION"@),
    ensures
        meta_lines(opened + list) == (
            MetaSection::FileList,
            MetaView {
                files: list.filter(|line: Seq<char>| file_line(line) is Some).map_values(
                    |line: Seq<char>| file_line(line)->0,
                ),
                ..meta_lines(opened).1
            },
        ),
    decreases list.len(),
{
    reveal(Seq::filter);
    let keep = |line: Seq<char>| file_line(line) is Some;
    let read = |line: Seq<char>| file_line(line)->0;
    if list.len() == 0 {
        assert(opened + list =~= opened);
        assert(list.filter(keep).map_values(read) =~= Seq::<FileMetaView>::empty());
    } else {
        let rest = list.drop_last();
        assert forall|i: int| 0 <= i < rest.len() implies rest[i] != "INFORMATION"@ by {
            assert(list[i] == rest[i]);
        }
        lemma_list(opened, rest);
        assert(list.contains(list.last()));
        assert((opened + list).drop_last() =~= opened + rest);
        assert((opened + list).last() == list.last());
        if keep(list.last()) {
            assert(list.filter(keep) =~= rest.filter(keep).push(list.last()));
            assert(list.filter(keep).map_values(read) =~= rest.filter(keep).map_values(read).push(
                read(list.last()),
            ));
        }
    }
}

proof fn lemma_information(closed: Seq<Seq<char>>, information: Seq<Seq<char>>)
    requires
        meta_lines(closed).0 is Information,
        meta_lines(closed).1.information == Seq::<char>::empty(),
    ensures
        meta_lines(closed + information) == (
            MetaSection::Information,
            MetaView { information: text::ended(information), ..meta_lines(closed).1 },
        ),
    decreases information.len(),
{
    if information.len() == 0 {
        assert(closed + information =~= closed);
        assert(text::ended(information) =~= Seq::<char>::empty());
    } else {
        let rest = information.drop_last();
        lemma_information(closed, rest);
        assert((closed + information).drop_last() =~= closed + rest);
        assert((closed + information).last() == information.last());
        text::lemma_ended(rest, information.last());
        assert(rest.push(information.last()) =~= information);
    }
}

/// A line of the header names a value by a word and one space before it.
pub open spec fn names(line: Seq<char>, word: Seq<char>) -> bool {
    text::starts_with(line, word + seq![' '])
}

/// The header of the reply about a gallery: of each word the last line counts. A number or
/// a count that is no number counts as 0, and the title is made fit for the file system.
/// There is a gallery just where its number and its count are positive and its title is
/// not empty.
pub proof fn law_header_is_read(
    client: HahApiClient,
    reply: &str,
    answer: Result<Option<GalleryMeta>, ApiError>,
    head: Seq<Seq<char>>,
    rest: Seq<Seq<char>>,
    gid: int,
    count: int,
    xres: int,
    title: int,
)
    requires
        call_ensures(HahApiClient::parse_gallery_meta, (&client, reply), answer),
        !head.contains("FILELIST"@),
        text::lines(reply@) == head || text::lines(reply@) == head.push("FILELIST"@) + rest,
        last_named(head, "GID"@, gid),
        last_named(head, "FILECOUNT"@, count),
        last_named(head, "MINXRES"@, xres),
        last_named(head, "TITLE"@, title),
    ensures
        ({
            let number = |line: Seq<char>, i: int, before: int|
                if i < 0 {
                    0
                } else {
                    match text::parsed_signed(
                        line.skip(before),
                        -0x8000_0000,
                        0x7fff_ffff,
                    ) {
                        Some(n) => n,
                        None => 0,
                    }
                };
            let told = if title < 0 {
                Seq::empty()
            } else {
                sanitized_title(head[title].skip(6))
            };
            &&& answer is Ok
            &&& answer->Ok_0 is Some <==> number(head[gid], gid, 4) > 0 && number(
                head[count],
                count,
                10,
            ) > 0 && told.len() > 0
            &&& answer->Ok_0 matches Some(meta) ==> {
                &&& meta.gid == number(head[gid], gid, 4)
                &&& meta.filecount == number(head[count], count, 10)
                &&& meta.minxres@ == (if xres < 0 {
                    Seq::empty()
                } else {
                    head[xres].skip(8)
                })
                &&& meta.title@ == told
            }
        }),
{
    lemma_header_words(head, gid, count, xres, title);
    lemma_head(head);
    if text::lines(reply@) != head {
        let opened = head.push("FILELIST"@);
        assert(opened.drop_last() =~= head);
        lemma_after_header(opened, rest);
    }
}

/// The line of number `i` is the last that names the word; `i` is -1 where none does.
pub open spec fn last_named(head: Seq<Seq<char>>, word: Seq<char>, i: int) -> bool {
    &&& -1 <= i < head.len()
    &&& i >= 0 ==> names(head[i], word)
    &&& forall|j: int| i < j < head.len() ==> !names(#[trigger] head[j], word)
}

proof fn lemma_after_header(opened: Seq<Seq<char>>, rest: Seq<Seq<char>>)
    requires
        !(meta_lines(opened).0 is Header),
    ensures
        !(meta_lines(opened + rest).0 is Header),
        meta_lines(opened + rest).1 == (MetaView {
            files: meta_lines(opened + rest).1.files,
            information: meta_lines(opened + rest).1.information,
            ..meta_lines(opened).1
        }),
    decreases rest.len(),
{
    if rest.len() == 0 {
        assert(opened + rest =~= opened);
    } else {
        lemma_after_header(opened, rest.drop_last());
        assert((opened + rest).drop_last() =~= opened + rest.drop_last());
    }
}

/// A line names a word just where it is cut at its first space behind that word.
proof fn lemma_names(line: Seq<char>, word: Seq<char>)
    requires
        !word.contains(' '),
    ensures
        names(line, word) <==> (text::split_once(line, ' ') matches Some((key, value)) && key
            == word),
        names(line, word) ==> text::split_once(line, ' ') == Some(
            (word, line.skip(word.len() as int + 1)),
        ),
{
    if names(line, word) {
        let value = line.skip(word.len() as int + 1);
        assert(line.subrange(0, word.len() as int + 1) == word + seq![' ']);
        assert(line =~= word + seq![' '] + value);
        text::law_split_once(word, ' ', value);
    } else if text::split_once(line, ' ') is Some {
        text::lemma_index_of(line, ' ');
        let (key, value) = text::split_once(line, ' ')->0;
        assert(line =~= key + seq![' '] + value);
        if key == word {
            assert(line.subrange(0, word.len() as int + 1) =~= word + seq![' ']);
        }
    }
}

proof fn lemma_header_words(head: Seq<Seq<char>>, gid: int, count: int, xres: int, title: int)
    requires
        !head.contains("FILELIST"@),
        last_named(head, "GID"@, gid),
        last_named(head, "FILECOUNT"@, count),
        last_named(head, "MINXRES"@, xres),
        last_named(head, "TITLE"@, title),
    ensures
        meta_lines(head).1.gid == (if gid < 0 {
            0
        } else {
            small(head[gid].skip(4))
        }),
        meta_lines(head).1.filecount == (if count < 0 {
            0
        } else {
            small(head[count].skip(10))
        }),
        meta_lines(head).1.minxres == (if xres < 0 {
            Seq::empty()
        } else {
            head[xres].skip(8)
        }),
        meta_lines(head).1.title == (if title < 0 {
            Seq::empty()
        } else {
            sanitized_title(head[title].skip(6))
        }),
    decreases head.len(),
{
    if head.len() > 0 {
        let rest = head.drop_last();
        let line = head.last();
        assert(head.contains(line));
        assert forall|i: int| 0 <= i < rest.len() implies rest[i] != "FILELIST"@ by {
            assert(head[i] == rest[i]);
        }
        lemma_head(rest);
        reveal_strlit("GID");
        reveal_strlit("FILECOUNT");
        reveal_strlit("MINXRES");
        reveal_strlit("TITLE");
        assert("GID"@.len() == 3 && "FILECOUNT"@.len() == 9 && "MINXRES"@.len() == 7
            && "TITLE"@.len() == 5);
        lemma_names(line, "GID"@);
        lemma_names(line, "FILECOUNT"@);
        lemma_names(line, "MINXRES"@);
        lemma_names(line, "TITLE"@);
        text::law_numbers_are_within_limits(line.skip(4), i32::MIN as int, i32::MAX as int);
        text::law_numbers_are_within_limits(line.skip(10), i32::MIN as int, i32::MAX as int);
        let n = rest.len() as int;
        assert(forall|j: int| 0 <= j < n ==> head[j] == rest[j]);
        let before_gid = if gid == n {
            lemma_last_named(rest, "GID"@)
        } else {
            gid
        };
        let before_count = if count == n {
            lemma_last_named(rest, "FILECOUNT"@)
        } else {
            count
        };
        let before_xres = if xres == n {
            lemma_last_named(rest, "MINXRES"@)
        } else {
            xres
        };
        let before_title = if title == n {
            lemma_last_named(rest, "TITLE"@)
        } else {
            title
        };
        assert forall|j: int| 0 <= j < n implies #[trigger] rest[j] == head[j] by {}
        lemma_header_words(rest, before_gid, before_count, before_xres, before_title);
        if line.len() == 0 {
            assert(!names(line, "GID"@) && !names(line, "FILECOUNT"@) && !names(line, "MINXRES"@)
                && !names(line, "TITLE"@));
        }
    }
}

spec fn small(s: Seq<char>) -> int {
    match text::parsed_signed(s, i32::MIN as int, i32::MAX as int) {
        Some(n) => n,
        None => 0,
    }
}

proof fn lemma_last_named(head: Seq<Seq<char>>, word: Seq<char>) -> (i: int)
    ensures
        last_named(head, word, i),
    decreases head.len(),
{
    if head.len() == 0 {
        -1
    } else if names(head.last(), word) {
        head.len() - 1
    } else {
        let rest = head.drop_last();
        let i = lemma_last_named(rest, word);
        assert forall|j: int| i < j < head.len() implies !names(#[trigger] head[j], word) by {
            if j < rest.len() {
                assert(head[j] == rest[j]);
            }
        }
        i
    }
}

/// The download queue: a refusal is an error, `NO_PENDING_DOWNLOADS` means that nothing
/// waits, and any other reply is read as that about a gallery.
pub proof fn law_queue_is_read(
    client: HahApiClient,
    reply: &str,
    answer: Result<Option<GalleryMeta>, ApiError>,
    read: Result<Option<GalleryMeta>, ApiError>,
)
    requires
        call_ensures(HahApiClient::fetch_download_queue, (&client, reply), answer),
        call_ensures(HahApiClient::parse_gallery_meta, (&client, reply), read),
    ensures
        answer is Err <==> text::starts_with(reply@, "FAIL"@) || text::starts_with(
            reply@,
            "INVALID_REQUEST"@,
        ),
        answer matches Err(e) ==> (e matches ApiError::ServerError(said) && said@ == reply@),
        answer is Ok && reply@ == "NO_PENDING_DOWNLOADS"@ ==> answer->Ok_0 is None,
        answer is Ok && reply@ != "NO_PENDING_DOWNLOADS"@ ==> {
            &&& answer->Ok_0 is Some <==> read->Ok_0 is Some
            &&& answer->Ok_0 is Some ==> answer->Ok_0->0@ == read->Ok_0->0@
        },
{
}

/// What a title keeps: all of its characters but eight, in their order, and one space
/// between each two words.
pub proof fn law_titles_keep_their_words(s: Seq<char>, c: char, words: Seq<Seq<char>>)
    requires
        forall|i: int|
            0 <= i < words.len() ==> (#[trigger] words[i]).len() > 0 && words[i].all(
                |d: char|
                    !text::is_space(d) && d != '*' && d != '"' && d != '\\' && d != '<' && d != '>'
                        && d != ':' && d != '|' && d != '?',
            ),
    ensures
        without_reserved(Seq::empty()) == Seq::<char>::empty(),
        without_reserved(s.push(c)) == (if c == '*' || c == '"' || c == '\\' || c == '<' || c == '>'
            || c == ':' || c == '|' || c == '?' {
            without_reserved(s)
        } else {
            without_reserved(s).push(c)
        }),
        sanitized_title(s) == text::join(text::words(without_reserved(s)), seq![' ']),
        sanitized_title(text::join(words, seq![' '])) == text::join(words, seq![' ']),
{
    assert(s.push(c).drop_last() =~= s);
    reveal_strlit(" ");
    assert(" "@ =~= seq![' ']);
    let title = text::join(words, seq![' ']);
    assert forall|i: int| 0 <= i < title.len() implies !is_reserved(#[trigger] title[i]) by {
        let allowed = |d: char| !is_reserved(d);
        assert forall|w: int, j: int| 0 <= w < words.len()
            && 0 <= j < words[w].len() implies allowed(
            #[trigger] words[w][j],
        ) by {
            let kept = |d: char|
                !text::is_space(d) && d != '*' && d != '"' && d != '\\' && d != '<' && d != '>'
                    && d != ':' && d != '|' && d != '?';
            assert(words[w].all(kept));
            assert(kept(words[w][j]));
        }
        text::lemma_join(words, seq![' '], allowed);
        assert(allowed(title[i]));
    }
    lemma_nothing_reserved(title);
    lemma_words_of_joined(words);
}

proof fn lemma_nothing_reserved(s: Seq<char>)
    requires
        forall|i: int| 0 <= i < s.len() ==> !is_reserved(#[trigger] s[i]),
    ensures
        without_reserved(s) == s,
    decreases s.len(),
{
    if s.len() > 0 {
        let rest = s.drop_last();
        assert forall|i: int| 0 <= i < rest.len() implies !is_reserved(#[trigger] rest[i]) by {
            assert(rest[i] == s[i]);
        }
        lemma_nothing_reserved(rest);
        assert(s[s.len() - 1] == s.last());
        assert(s =~= rest.push(s.last()));
    } else {
        assert(s =~= Seq::empty());
    }
}

proof fn lemma_words_of_joined(words: Seq<Seq<char>>)
    requires
        forall|i: int|
            0 <= i < words.len() ==> (#[trigger] words[i]).len() > 0 && words[i].all(
                |d: char|
                    !text::is_space(d) && d != '*' && d != '"' && d != '\\' && d != '<' && d != '>'
                        && d != ':' && d != '|' && d != '?',
            ),
    ensures
        text::words(text::join(words, seq![' '])) == words,
    decreases words.len(),
{
    if words.len() == 0 {
        assert(text::join(words, seq![' ']) =~= Seq::<char>::empty());
        assert(words =~= Seq::empty());
    } else {
        let first = words[0];
        let kept = |d: char|
            !text::is_space(d) && d != '*' && d != '"' && d != '\\' && d != '<' && d != '>' && d
                != ':' && d != '|' && d != '?';
        assert(words[0].all(kept));
        assert forall|i: int| 0 <= i < first.len() implies !text::is_space(#[trigger] first[i]) by {
            assert(kept(first[i]));
        }
        let rest = words.drop_first();
        assert forall|i: int| 0 <= i < rest.len() implies (#[trigger] rest[i]).len() > 0
            && rest[i].all(kept) by {
            assert(rest[i] == words[i + 1]);
        }
        lemma_words_of_joined(rest);
        text::law_words(first, ' ', text::join(rest, seq![' ']));
        if words.len() > 1 {
            text::lemma_join_first(words, seq![' ']);
            assert(words =~= seq![first] + rest);
        } else {
            assert(words =~= seq![first]);
        }
    }
}

/// A line of the statistics sets what its key names, in either case of its letters: the
/// time, the servers, their port or the path; a number that cannot be read, and any other
/// key, changes nothing.
pub proof fn law_statistics_are_read(v: StatView, key: Seq<char>, value: Seq<char>, time: i64)
    requires
        !key.contains('='),
    ensures
        ({
            let line = key + seq!['='] + value;
            let after = stat_line(v, line, time);
            let named = text::lowercase(key);
            &&& after.delta == (if named == "server_time"@ {
                match text::parsed_signed(value, -0x8000_0000_0000_0000, 0x7fff_ffff_ffff_ffff) {
                    Some(n) => if -0x8000_0000 <= n - time <= 0x7fff_ffff {
                        n - time
                    } else {
                        after.delta as int
                    },
                    None => v.delta as int,
                }
            } else {
                v.delta as int
            })
            &&& after.port == (if named == "rpc_server_port"@ {
                match text::parsed_unsigned(value, 65535) {
                    Some(n) => n,
                    None => v.port as int,
                }
            } else {
                v.port as int
            })
            &&& after.path == (if named == "rpc_path"@ {
                value
            } else {
                v.path
            })
            &&& after.ips == (if named == "rpc_server_ip"@ {
                text::split(value, ';').filter(|ip: Seq<char>| ip.len() > 0)
            } else {
                v.ips
            })
            &&& stat_line_refuses(line) == (if named == "min_client_build"@ {
                match text::parsed_signed(value, -0x8000_0000, 0x7fff_ffff) {
                    Some(n) => if n > 176 {
                        Some(n as i32)
                    } else {
                        None
                    },
                    None => None,
                }
            } else {
                None
            })
        }),
        stat_line(v, key, time) == v,
        stat_line_refuses(key) is None,
{
    text::law_split_once(key, '=', value);
    text::law_numbers_are_within_limits(value, 0, 65535);
    text::law_numbers_are_within_limits(value, i32::MIN as int, i32::MAX as int);
    lemma_non_empty(text::split(value, ';'));
    reveal_strlit("server_time");
    reveal_strlit("rpc_server_ip");
    reveal_strlit("rpc_server_port");
    reveal_strlit("rpc_path");
    reveal_strlit("min_client_build");
    assert("server_time"@.len() == 11 && "min_client_build"@.len() == 16 && "rpc_server_ip"@.len()
        == 13 && "rpc_server_port"@.len() == 15 && "rpc_path"@.len() == 8);
}

/// The statistics are taken line by line: each line takes effect on what the lines before
/// it left, up to the first that refuses this client.
pub proof fn law_statistics_take_effect_in_turn(
    client: &mut HahApiClient,
    reply: &str,
    time: i64,
    answer: Result<(), ApiError>,
    steps: Seq<StatView>,
)
    requires
        call_ensures(HahApiClient::server_stat, (client, reply, time), answer),
        steps.len() > 0,
        steps.len() <= text::lines(reply@).len() + 1,
        steps[0] == old(client).stat_view(),
        forall|i: int|
            0 <= i < steps.len() - 1 ==> steps[i + 1] == #[trigger] stat_line(
                steps[i],
                text::lines(reply@)[i],
                time,
            ) && stat_line_refuses(text::lines(reply@)[i]) is None,
        steps.len() <= text::lines(reply@).len() ==> stat_line_refuses(
            text::lines(reply@)[steps.len() - 1],
        ) is Some,
    ensures
        text::starts_with(reply@, "FAIL"@) ==> *final(client) == *old(client)
            && (answer matches Err(
            ApiError::ServerError(said),
        ) && said@ == reply@),
        !text::starts_with(reply@, "FAIL"@) ==> {
            &&& final(client).stat_view() == steps.last()
            &&& answer is Ok <==> steps.len() == text::lines(reply@).len() + 1
            &&& answer matches Err(e) ==> (e matches ApiError::ServerError(said) && said@
                == "Client build 176 is too old. Minimum required: "@ + text::decimal_int(
                stat_line_refuses(text::lines(reply@)[steps.len() - 1])->0 as int,
            ))
        },
{
    lemma_build_text();
    lemma_stat_steps(text::lines(reply@), time, steps);
}

proof fn lemma_stat_steps(lines: Seq<Seq<char>>, time: i64, steps: Seq<StatView>)
    requires
        0 < steps.len() <= lines.len() + 1,
        forall|i: int|
            0 <= i < steps.len() - 1 ==> steps[i + 1] == #[trigger] stat_line(
                steps[i],
                lines[i],
                time,
            ) && stat_line_refuses(lines[i]) is None,
        steps.len() <= lines.len() ==> stat_line_refuses(lines[steps.len() - 1]) is Some,
    ensures
        stat_lines(steps[0], lines, time) == steps.last(),
        stat_refused(lines) == (if steps.len() <= lines.len() {
            stat_line_refuses(lines[steps.len() - 1])
        } else {
            None
        }),
    decreases steps.len(),
{
    if steps.len() > 1 {
        let rest = lines.drop_first();
        let later = steps.drop_first();
        assert(steps[1] == stat_line(steps[0], lines[0], time));
        assert forall|i: int| 0 <= i < later.len() - 1 implies later[i + 1] == #[trigger] stat_line(
            later[i],
            rest[i],
            time,
        ) && stat_line_refuses(rest[i]) is None by {
            assert(later[i] == steps[i + 1] && rest[i] == lines[i + 1]);
            assert(steps[(i + 1) + 1] == stat_line(steps[i + 1], lines[i + 1], time));
        }
        lemma_stat_steps(rest, time, later);
    }
}

/// Lists of the server: the uncache list is every line that is neither empty, a comment
/// nor `OK`, in order.
pub proof fn law_uncache_list_is_read(
    client: HahApiClient,
    reply: &str,
    answer: Result<Vec<String>, ApiError>,
    all: Result<Vec<String>, ApiError>,
)
    requires
        call_ensures(HahApiClient::get_uncache_list, (&client, reply), answer),
        call_ensures(HahApiClient::get_static_range, (&client, reply), all),
    ensures
        answer is Err <==> text::starts_with(reply@, "FAIL"@),
        all is Err <==> text::starts_with(reply@, "FAIL"@),
        answer matches Err(e) ==> (e matches ApiError::ServerError(said) && said@ == reply@),
        all matches Err(e) ==> (e matches ApiError::ServerError(said) && said@ == reply@),
        answer matches Ok(hashes) ==> text::texts(hashes@) == text::lines(reply@).filter(
            |line: Seq<char>| line.len() > 0 && line[0] != '#' && line != "OK"@,
        ),
        all matches Ok(ranges) ==> text::texts(ranges@) == text::lines(reply@),
{
    lemma_entries(text::lines(reply@));
}

proof fn lemma_entries(lines: Seq<Seq<char>>)
    ensures
        list_entries(lines) == lines.filter(
            |line: Seq<char>| line.len() > 0 && line[0] != '#' && line != "OK"@,
        ),
    decreases lines.len(),
{
    reveal(Seq::filter);
    if lines.len() > 0 {
        lemma_entries(lines.drop_last());
    }
}

/// A file of the static ranges is a hash, a size and a type between semicolons; what
/// follows is passed over, a size that is no number is 0, and a line of fewer parts, like
/// one that is no entry of a list, gives no file.
pub proof fn law_range_lines_are_read(
    hash: Seq<char>,
    size: Seq<char>,
    kind: Seq<char>,
    more: Seq<char>,
    line: Seq<char>,
)
    requires
        hash.len() > 0,
        hash[0] != '#',
        !hash.contains(';'),
        !size.contains(';'),
        !kind.contains(';'),
    ensures
        ({
            let read = match text::parsed_unsigned(size, 0xffff_ffff_ffff_ffff) {
                Some(n) => n as u64,
                None => 0u64,
            };
            &&& range_file(hash + seq![';'] + (size + seq![';'] + kind)) == Some((hash, read, kind))
            &&& range_file(hash + seq![';'] + (size + seq![';'] + (kind + seq![';'] + more)))
                == Some((hash, read, kind))
            &&& range_file(hash + seq![';'] + size) is None
            &&& range_file(hash) is None
        }),
        line.len() == 0 || line[0] == '#' || line == "OK"@ ==> range_file(line) is None,
{
    text::law_split(hash, ';', size + seq![';'] + kind);
    text::law_split(hash, ';', size + seq![';'] + (kind + seq![';'] + more));
    text::law_split(size, ';', kind);
    text::law_split(size, ';', kind + seq![';'] + more);
    text::law_split(kind, ';', more);
    text::law_split(hash, ';', size);
    text::law_numbers_are_within_limits(size, 0, u64::MAX as int);
    reveal_strlit("OK");
    let one = hash + seq![';'] + (size + seq![';'] + kind);
    let two = hash + seq![';'] + (size + seq![';'] + (kind + seq![';'] + more));
    assert(one[0] == hash[0] && two[0] == hash[0]);
    assert(text::split(one, ';') =~= seq![hash, size, kind]);
    assert(text::split(two, ';').take(3) =~= seq![hash, size, kind]);
    assert(text::split(two, ';')[0] == hash && text::split(two, ';')[1] == size && text::split(
        two,
        ';',
    )[2] == kind);
    if one == "OK"@ {
        assert("OK"@[hash.len() as int] == ';');
    }
    if two == "OK"@ {
        assert("OK"@[hash.len() as int] == ';');
    }
}

/// Every line that gives a file gives one, in the order of the lines.
pub proof fn law_range_files_are_read(
    client: HahApiClient,
    reply: &str,
    answer: Result<Vec<(String, u64, String)>, ApiError>,
)
    requires
        call_ensures(HahApiClient::fetch_static_range_files, (&client, reply), answer),
    ensures
        answer is Err <==> text::starts_with(reply@, "FAIL"@),
        answer matches Err(e) ==> (e matches ApiError::ServerError(said) && said@ == reply@),
        answer matches Ok(files) ==> {
            let listing = text::lines(reply@).filter(|line: Seq<char>| range_file(line) is Some);
            &&& files@.len() == listing.len()
            &&& forall|i: int|
                0 <= i < files@.len() ==> Some(
                    ((#[trigger] files@[i]).0@, files@[i].1, files@[i].2@),
                ) == range_file(listing[i])
        },
{
    lemma_range_files(text::lines(reply@));
    if answer is Ok {
        let files = answer->Ok_0@;
        assert(file_views(files).len() == files.len());
        assert forall|i: int| 0 <= i < files.len() implies file_views(files)[i] == (
            (#[trigger] files[i]).0@,
            files[i].1,
            files[i].2@,
        ) by {}
    }
}

proof fn lemma_range_files(lines: Seq<Seq<char>>)
    ensures
        ({
            let listing = lines.filter(|line: Seq<char>| range_file(line) is Some);
            &&& range_files(lines).len() == listing.len()
            &&& forall|i: int|
                0 <= i < listing.len() ==> Some(#[trigger] range_files(lines)[i]) == range_file(
                    listing[i],
                )
        }),
    decreases lines.len(),
{
    reveal(Seq::filter);
    if lines.len() > 0 {
        let rest = lines.drop_last();
        lemma_range_files(rest);
        let keep = |line: Seq<char>| range_file(line) is Some;
        let before = rest.filter(keep);
        let listing = lines.filter(keep);
        assert forall|i: int| 0 <= i < listing.len() implies Some(
            #[trigger] range_files(lines)[i],
        ) == range_file(listing[i]) by {
            if i < before.len() {
                assert(listing[i] == before[i]);
                assert(range_files(lines)[i] == range_files(rest)[i]);
            }
        }
    }
}

/// Replies of one line: what the server acknowledges contains `OK`, and any other reply is
/// an error that tells it.
pub proof fn law_replies_are_acknowledgements(
    client: HahApiClient,
    reply: &str,
    answer: Result<(), ApiError>,
    alive: Result<bool, ApiError>,
    place: Result<Option<String>, ApiError>,
    url: Result<Option<String>, ApiError>,
)
    requires
        call_ensures(HahApiClient::client_suspend, (&client, reply), answer) || call_ensures(
            HahApiClient::client_resume,
            (&client, reply),
            answer,
        ) || call_ensures(HahApiClient::client_stop, (&client, reply), answer) || call_ensures(
            HahApiClient::downloaded_files,
            (&client, reply),
            answer,
        ) || call_ensures(HahApiClient::report_uncached, (&client, reply), answer) || call_ensures(
            HahApiClient::notify_overload,
            (&client, reply),
            answer,
        ),
        call_ensures(HahApiClient::client_still_alive, (&client, reply), alive),
        call_ensures(HahApiClient::proxy_request, (&client, reply), place),
        call_ensures(HahApiClient::get_downloader_fetch_url, (&client, reply), url),
    ensures
        answer is Ok <==> text::contains(reply@, "OK"@),
        answer matches Err(e) ==> (e matches ApiError::ServerError(said) && said@ == reply@),
        text::contains(reply@, "OK"@) ==> alive == Ok::<bool, ApiError>(true),
        !text::contains(reply@, "OK"@) && text::contains(reply@, "FAIL"@) ==> alive == Ok::<
            bool,
            ApiError,
        >(false),
        alive is Err <==> !text::contains(reply@, "OK"@) && !text::contains(reply@, "FAIL"@),
        alive matches Err(e) ==> (e matches ApiError::InvalidResponse(said) && said@ == reply@),
        place is Ok && url is Ok,
        place->Ok_0 is Some <==> !text::starts_with(reply@, "FAIL"@) && !text::contains(
            reply@,
            "NOT_FOUND"@,
        ) && text::lines(reply@).len() > 0,
        place->Ok_0 matches Some(told) ==> told@ == text::lines(reply@)[0],
        url->Ok_0 is Some <==> !text::starts_with(reply@, "FAIL"@) && !text::starts_with(
            reply@,
            "INVALID"@,
        ) && text::lines(reply@).len() > 0,
        url->Ok_0 matches Some(told) ==> told@ == text::lines(reply@)[0],
{
}

/// A hash lies in an assigned range just where its first four bytes are assigned.
pub proof fn law_ranges_go_by_four_bytes(
    client: HahApiClient,
    hash: &str,
    first: Seq<char>,
    rest: Seq<char>,
    assigned: bool,
)
    requires
        call_ensures(HahApiClient::is_in_static_range, (&client, hash), assigned),
    ensures
        hash@ == first + rest && text::byte_len(first) == 4 ==> (assigned <==> exists|i: int|
            0 <= i < client.server_settings.static_ranges@.len() && (
            #[trigger] client.server_settings.static_ranges@[i])@ == first),
        text::byte_len(hash@) < 4 ==> !assigned,
{
    let ranges = client.server_settings.static_ranges@;
    let listed = text::texts(ranges);
    assert(listed.len() == ranges.len());
    assert(forall|i: int| 0 <= i < ranges.len() ==> listed[i] == (#[trigger] ranges[i])@);
    if hash@ == first + rest && text::byte_len(first) == 4 {
        assert(hash@.take(first.len() as int) =~= first);
        text::lemma_byte_len(first);
        text::law_bytes_are_utf8(hash@, 4, first.len() as int);
        text::lemma_byte_len_concat(first, rest);
        let prefixes = client.server_settings@.static_ranges;
        if listed.contains(first) {
            let i = choose|i: int| 0 <= i < listed.len() && listed[i] == first;
            assert(ranges[i]@ == first);
        }
        if exists|i: int| 0 <= i < ranges.len() && (#[trigger] ranges[i])@ == first {
            let i = choose|i: int| 0 <= i < ranges.len() && (#[trigger] ranges[i])@ == first;
            assert(listed[i] == first);
        }
    }
}

/// Each request names its own action, and is built as any request of that action is:
/// `plain` is what any client in the same state builds for the action.
pub proof fn law_requests_name_their_action(
    client: &mut HahApiClient,
    other: &mut HahApiClient,
    action: &str,
    time: i64,
    url: String,
    plain: String,
)
    requires
        *old(client) == *old(other),
        call_ensures(HahApiClient::build_url, (other, action, "", time), plain),
    ensures
        action@ == "client_login"@ && call_ensures(
            HahApiClient::client_login_request,
            (client, time),
            url,
        ) ==> url@ == plain@,
        action@ == "still_alive"@ && call_ensures(
            HahApiClient::client_still_alive_request,
            (client, time),
            url,
        ) ==> url@ == plain@,
        action@ == "client_suspend"@ && call_ensures(
            HahApiClient::client_suspend_request,
            (client, time),
            url,
        ) ==> url@ == plain@,
        action@ == "client_resume"@ && call_ensures(
            HahApiClient::client_resume_request,
            (client, time),
            url,
        ) ==> url@ == plain@,
        action@ == "client_stop"@ && call_ensures(
            HahApiClient::client_stop_request,
            (client, time),
            url,
        ) ==> url@ == plain@,
        action@ == "get_blacklist"@ && call_ensures(
            HahApiClient::get_static_range_request,
            (client, time),
            url,
        ) ==> url@ == plain@,
        action@ == "get_uncache_list"@ && call_ensures(
            HahApiClient::get_uncache_list_request,
            (client, time),
            url,
        ) ==> url@ == plain@,
        action@ == "srfetch"@ && call_ensures(
            HahApiClient::fetch_static_range_files_request,
            (client, time),
            url,
        ) ==> url@ == plain@,
{
}

/// What the other requests carry besides their action.
pub proof fn law_requests_carry_their_data(
    client: &mut HahApiClient,
    other: &mut HahApiClient,
    action: &str,
    data: &str,
    time: i64,
    url: String,
    plain: String,
    hash: &str,
    on: bool,
    a: u64,
    b: u64,
    c: u64,
    d: u64,
)
    requires
        *old(client) == *old(other),
        call_ensures(HahApiClient::build_url, (other, action, data, time), plain),
    ensures
        action@ == "file_served"@ && data@ == hash@ + seq![';'] + text::decimal(a as nat)
            && call_ensures(HahApiClient::report_served, (client, hash, a, time), url) ==> url@
            == plain@,
        action@ == "client_overload"@ && data@ == (if on {
            "1"@
        } else {
            "0"@
        }) && call_ensures(HahApiClient::notify_overload_request, (client, on, time), url) ==> url@
            == plain@,
        action@ == "proxy_request"@ && data@ == hash@ && call_ensures(
            HahApiClient::proxy_request_request,
            (client, hash, time),
            url,
        ) ==> url@ == plain@,
        action@ == "client_stats"@ && data@ == text::join(
            seq![
                text::decimal(a as nat),
                text::decimal(b as nat),
                text::decimal(c as nat),
                text::decimal(d as nat),
            ],
            seq![';'],
        ) && call_ensures(HahApiClient::report_statistics, (client, a, b, c, d, time), url) ==> url@
            == plain@,
{
    reveal_strlit(";");
    assert(";"@ =~= seq![';']);
    let first = seq![text::decimal(a as nat)];
    let second = first.push(text::decimal(b as nat));
    let third = second.push(text::decimal(c as nat));
    text::law_join(first, seq![';'], text::decimal(b as nat));
    text::law_join(second, seq![';'], text::decimal(c as nat));
    text::law_join(third, seq![';'], text::decimal(d as nat));
    text::law_join(Seq::empty(), seq![';'], text::decimal(a as nat));
    assert(third.push(text::decimal(d as nat)) =~= seq![
        text::decimal(a as nat),
        text::decimal(b as nat),
        text::decimal(c as nat),
        text::decimal(d as nat),
    ]);
}

/// Lists are sent joined with semicolons; where there is nothing to send, nothing is, and
/// more than fifty failures are not reported.
pub proof fn law_lists_are_sent(
    client: &mut HahApiClient,
    other: &mut HahApiClient,
    action: &str,
    data: &str,
    time: i64,
    files: Vec<String>,
    done: Option<String>,
    plain: String,
)
    requires
        *old(client) == *old(other),
        data@ == text::join(text::texts(files@), seq![';']),
        call_ensures(HahApiClient::build_url, (other, action, data, time), plain),
    ensures
        action@ == "dl_finished"@ && call_ensures(
            HahApiClient::downloaded_files_request,
            (client, &files, time),
            done,
        ) ==> (done is Some <==> files@.len() > 0) && (done is Some ==> done->0@ == plain@),
        action@ == "uncache_finished"@ && call_ensures(
            HahApiClient::report_uncached_request,
            (client, &files, time),
            done,
        ) ==> (done is Some <==> files@.len() > 0) && (done is Some ==> done->0@ == plain@),
        action@ == "dlfails"@ && call_ensures(
            HahApiClient::report_download_failures,
            (client, &files, time),
            done,
        ) ==> (done is Some <==> 1 <= files@.len() <= 50) && (done is Some ==> done->0@ == plain@),
{
    reveal_strlit(";");
    assert(";"@ =~= seq![';']);
}

/// Requests about the download queue and its files, and the address of test data.
pub proof fn law_download_requests_are_made(
    client: &mut HahApiClient,
    other: &mut HahApiClient,
    data: &str,
    time: i64,
    gid: i32,
    page: i32,
    index: i32,
    xres: &str,
    retry: i32,
    url: String,
    queue: String,
    fetch: String,
    size: usize,
    test: String,
)
    requires
        *old(client) == *old(other),
        call_ensures(HahApiClient::build_download_url, (other, "fetchqueue", data, time), queue),
        call_ensures(HahApiClient::build_url, (other, "dlfetch", data, time), fetch),
        call_ensures(HahApiClient::speed_test, (&*old(client), size), test),
    ensures
        data@ == text::decimal_int(gid as int) + seq![';'] + xres@ && call_ensures(
            HahApiClient::fetch_download_queue_request,
            (client, Some((gid, xres)), time),
            url,
        ) ==> url@ == queue@,
        data@.len() == 0 && call_ensures(
            HahApiClient::fetch_download_queue_request,
            (client, None, time),
            url,
        ) ==> url@ == queue@,
        data@ == text::decimal_int(gid as int) + seq![';'] + text::decimal_int(page as int)
            + seq![';'] + text::decimal_int(index as int) + seq![';'] + xres@ + seq![';']
            + text::decimal_int(retry as int) && call_ensures(
            HahApiClient::get_downloader_fetch_url_request,
            (client, gid, page, index, xres, retry, time),
            url,
        ) ==> url@ == fetch@,
        test@ == old(client).server_settings.request_server@ + "?cmd=speed_test&size="@
            + text::decimal(size as nat),
{
    reveal_strlit(";");
    assert(";"@ =~= seq![';']);
    reveal_strlit("");
    assert(data@.len() == 0 ==> data@ =~= ""@);
}

/// The clock: the time of the server is the local time and the difference that was noted,
/// and a time that the server named is told again at the same local time.
pub proof fn law_clock_is_set(
    client: &mut HahApiClient,
    named: i64,
    noted: i64,
    local: i64,
    told: i64,
    fresh: HahApiClient,
    config: Config,
    stat: String,
    other: &mut HahApiClient,
    host: String,
)
    requires
        call_ensures(HahApiClient::set_server_time, (client, named, noted), ()),
        call_ensures(HahApiClient::get_server_time, (&*final(client), local), told),
        call_ensures(HahApiClient::new, (config,), fresh),
        *old(client) == *old(other),
        call_ensures(HahApiClient::build_server_stat_url, (other,), stat),
        host@ == old(other).next_host(),
    ensures
        -0x8000_0000 <= named - noted <= 0x7fff_ffff ==> told == local + (named - noted),
        final(client).server_settings == old(client).server_settings,
        final(client).config == old(client).config,
        fresh.server_time_delta == 0,
        fresh.config == config,
        fresh.current_rpc_server is None && fresh.last_failed_rpc_server is None,
        fresh.server_settings@ == ServerSettings::initial(),
        stat@ == "http://"@ + host@ + (if old(client).server_settings.rpc_path@.len() == 0 {
            "/15/rpc?"@
        } else {
            "/"@ + old(client).server_settings.rpc_path@
        }) + "clientbuild=176&act=server_stat"@,
{
    lemma_build_text();
    reveal_strlit("clientbuild=176&act=server_stat");
    reveal_strlit("clientbuild=");
    reveal_strlit("&act=server_stat");
    reveal_strlit("176");
    assert("clientbuild=176&act=server_stat"@ =~= "clientbuild="@ + "176"@ + "&act=server_stat"@);
    let front = "http://"@ + host@ + (if old(client).server_settings.rpc_path@.len() == 0 {
        "/15/rpc?"@
    } else {
        "/"@ + old(client).server_settings.rpc_path@
    });
    assert(front + "clientbuild=176&act=server_stat"@ =~= front + "clientbuild="@ + "176"@
        + "&act=server_stat"@);
}

/// What a client works with before the server has told it anything.
pub proof fn law_settings_begin(config: Config, fresh: HahApiClient)
    requires
        call_ensures(HahApiClient::new, (config,), fresh),
    ensures
        ({
            let settings = fresh.server_settings;
            &&& settings.min_client_build == 0 && settings.cur_client_build == 0
            &&& settings.max_files_xfer == 20 && settings.max_kb_xfer == 100000
            &&& settings.request_server@.len() == 0 && settings.image_server@.len() == 0
            &&& settings.name@.len() == 0 && settings.host@.len() == 0
            &&& settings.throttle_bytes == -1 && !settings.disable_browse_load
            &&& settings.port == 8080 && settings.request_valid_base == 0
            &&& settings.rpc_server_ips@.len() == 0 && settings.rpc_server_port == 80
            &&& settings.rpc_path@ == "15/rpc?"@
            &&& settings.static_ranges@.len() == 0 && settings.static_range_count == 0
            &&& settings.disk_limit_bytes == 0 && settings.disk_remaining_bytes == 0
            &&& settings.filesystem_blocksize == 4096
            &&& settings.max_allowed_filesize == 1073741824
        }),
{
    let settings = fresh.server_settings;
    let view = settings@;
    assert(text::texts(settings.rpc_server_ips@).len() == settings.rpc_server_ips@.len());
    let ranges = text::texts(settings.static_ranges@);
    if ranges.len() > 0 {
        assert(ranges.contains(ranges[0]));
        assert(ranges.to_set().contains(ranges[0]));
    }
}

/// What the client tells of its settings, and the errors in words.
pub proof fn law_client_tells(
    client: HahApiClient,
    settings: ServerSettings,
    count: i32,
    throttle: i64,
    e: ApiError,
    told: String,
)
    requires
        call_ensures(HahApiClient::get_settings, (&client,), settings),
        call_ensures(HahApiClient::get_static_range_count, (&client,), count),
        call_ensures(HahApiClient::get_throttle_bytes, (&client,), throttle),
        call_ensures(ApiError::message, (&e,), told),
    ensures
        settings@ == client.server_settings@,
        count == client.server_settings.static_range_count,
        throttle == client.server_settings.throttle_bytes,
        e matches ApiError::Network(s) ==> told@ == "Network error: "@ + s@,
        e matches ApiError::ServerError(s) ==> told@ == "Server returned error: "@ + s@,
        e matches ApiError::InvalidResponse(s) ==> told@ == "Invalid response: "@ + s@,
        e matches ApiError::AuthFailed(s) ==> told@ == "Authentication failed: "@ + s@,
{
}

/// A reply of settings is refused where it asks for a newer client, and only then; the
/// settings of the client stay in any case.
pub proof fn law_settings_are_refused(
    client: &mut HahApiClient,
    reply: &str,
    time: i64,
    answer: Result<ServerSettings, ApiError>,
    value: Seq<char>,
)
    requires
        call_ensures(HahApiClient::parse_server_settings, (client, reply, time), answer),
    ensures
        no_line_says(text::lines(reply@), "min_client_build"@) ==> answer is Ok,
        last_line_says(text::lines(reply@), "min_client_build"@, value) ==> {
            let build = text::parsed_signed(value, -0x8000_0000, 0x7fff_ffff);
            &&& answer is Err <==> build is Some && build->0 > 176
            &&& answer matches Err(e) ==> (e matches ApiError::ServerError(said) && said@
                == "Client too old. Required build: "@ + text::decimal_int(build->0)
                + ", current: 176"@)
        },
        final(client).server_settings == old(client).server_settings,
        final(client).config == old(client).config,
{
    reveal_strlit("min_client_build");
    assert(!"min_client_build"@.contains('='));
    law_values_are_found(text::lines(reply@), "min_client_build"@, value);
    lemma_build_text();
    let build = text::parsed_signed(value, -0x8000_0000, 0x7fff_ffff);
    text::law_numbers_are_within_limits(value, -0x8000_0000, 0x7fff_ffff);
    let words = "Client too old. Required build: "@ + text::decimal_int(build->0);
    assert(words + ", current: 176"@ =~= words + ", current: "@ + text::decimal_int(176));
}

}
