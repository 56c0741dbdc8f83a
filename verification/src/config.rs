//! Client configuration.

use crate::text;
use vstd::prelude::*;

verus! {

/// The version of this client.
pub const VERSION: &'static str = "0.1.0";

/// Why a configuration was refused.
#[derive(Debug, Clone)]
pub enum ConfigError {
    MissingRequired(String),
    InvalidValue(String),
    Io(String),
}

impl ConfigError {
    pub open spec fn message_text(&self) -> Seq<char> {
        match *self {
            ConfigError::MissingRequired(s) => "Missing required configuration: "@ + s@,
            ConfigError::InvalidValue(s) => "Invalid configuration value: "@ + s@,
            ConfigError::Io(s) => "IO error: "@ + s@,
        }
    }

    /// The error in words.
    pub fn message(&self) -> (res: String)
        ensures
            res@ == self.message_text(),
    {
        match self {
            ConfigError::MissingRequired(s) => "Missing required configuration: ".to_string().concat(
                s.as_str(),
            ),
            ConfigError::InvalidValue(s) => "Invalid configuration value: ".to_string().concat(
                s.as_str(),
            ),
            ConfigError::Io(s) => "IO error: ".to_string().concat(s.as_str()),
        }
    }
}

/// Command line arguments and environment variables.
#[derive(Debug, Clone)]
pub struct Args {
    /// Client ID from H@H registration.
    pub client_id: String,
    /// Client key from H@H registration.
    pub client_key: String,
    /// Port to listen on for serving files.
    pub port: u16,
    /// Cache directory path.
    pub cache_dir: String,
    /// Temporary directory for downloads.
    pub temp_dir: String,
    /// Maximum cache size in GB.
    pub cache_size_gb: u64,
    /// Maximum disk usage percentage (0-100).
    pub max_disk_usage: u8,
    /// Enable gallery downloading while browsing.
    pub gallery_download_enabled: bool,
    /// API endpoint for gallery downloads.
    pub gallery_api: String,
    /// ExHentai member ID cookie.
    pub exhentai_member_id: Option<String>,
    /// ExHentai pass hash cookie.
    pub exhentai_pass_hash: Option<String>,
    /// ExHentai igneous cookie.
    pub exhentai_igneous: Option<String>,
    /// Database path for tracking cache and downloads.
    pub database_path: String,
    /// Log level (trace, debug, info, warn, error).
    pub log_level: String,
    /// Enable JSON logging format.
    pub log_json: bool,
    /// Number of concurrent download workers.
    pub download_workers: usize,
    /// Request timeout in seconds.
    pub request_timeout: u64,
    /// Enable static ranges.
    pub static_ranges: bool,
    /// Bind address.
    pub bind_address: String,
    /// Maximum upload speed in KB/s (-1 for unlimited).
    pub max_upload_speed: i64,
    /// Maximum download speed in KB/s (-1 for unlimited).
    pub max_download_speed: i64,
    /// Maximum hourly bandwidth in MB (-1 for unlimited).
    pub max_hourly_bandwidth: i64,
    /// Enable proxy mode (forward uncached requests).
    pub proxy_mode: bool,
    /// Minimum disk space to keep free in GB.
    pub min_free_space_gb: u64,
    /// Enable metrics collection.
    pub enable_metrics: bool,
    /// Enable the terminal dashboard.
    pub tui: bool,
}

/// Runtime configuration derived from the arguments.
#[derive(Debug, Clone)]
pub struct Config {
    pub client_id: String,
    pub client_key: String,
    pub port: u16,
    pub cache_dir: String,
    pub temp_dir: String,
    pub cache_size_bytes: u64,
    pub max_disk_usage: u8,
    pub gallery_download_enabled: bool,
    pub gallery_api: String,
    pub exhentai_cookies: Option<ExHentaiCookies>,
    pub database_path: String,
    pub log_level: String,
    pub log_json: bool,
    pub download_workers: usize,
    pub request_timeout: u64,
    pub static_ranges: bool,
    pub bind_address: String,
    /// Max upload speed in bytes per second (-1 = unlimited).
    pub max_upload_speed: i64,
    /// Max download speed in bytes per second (-1 = unlimited).
    pub max_download_speed: i64,
    /// Max hourly bandwidth in bytes (-1 = unlimited).
    pub max_hourly_bandwidth: i64,
    /// Proxy mode for uncached requests.
    pub proxy_mode: bool,
    /// Minimum free space in bytes.
    pub min_free_space_bytes: u64,
    pub enable_metrics: bool,
    pub tui: bool,
}

#[derive(Debug, Clone)]
pub struct ExHentaiCookies {
    pub member_id: String,
    pub pass_hash: String,
    pub igneous: Option<String>,
}

/// A limit given in units of `unit` bytes, in bytes; -1 where there is none.
pub open spec fn limit_in_bytes(limit: i64, unit: int) -> int {
    if limit > 0 {
        limit * unit
    } else {
        -1
    }
}

impl Args {
    /// Every size and speed, counted in bytes, fits its type.
    pub open spec fn in_range(&self) -> bool {
        &&& limit_in_bytes(self.max_upload_speed, 1024) <= i64::MAX
        &&& limit_in_bytes(self.max_download_speed, 1024) <= i64::MAX
        &&& limit_in_bytes(self.max_hourly_bandwidth, 1048576) <= i64::MAX
        &&& self.cache_size_gb * 1073741824 <= u64::MAX
        &&& self.min_free_space_gb * 1073741824 <= u64::MAX
    }

    /// Whether every size and speed, counted in bytes, fits its type.
    pub fn is_in_range(&self) -> (r: bool)
        ensures
            r == self.in_range(),
    {
        self.max_upload_speed <= i64::MAX / 1024 && self.max_download_speed <= i64::MAX / 1024
            && self.max_hourly_bandwidth <= i64::MAX / 1048576 && self.cache_size_gb <= u64::MAX
            / 1073741824 && self.min_free_space_gb <= u64::MAX / 1073741824
    }
}

impl Config {
    /// The cookies for ExHentai, where both the member ID and the hash are set.
    pub open spec fn cookies(args: Args) -> Option<ExHentaiCookies> {
        match (args.exhentai_member_id, args.exhentai_pass_hash) {
            (Some(member_id), Some(pass_hash)) => Some(
                ExHentaiCookies { member_id, pass_hash, igneous: args.exhentai_igneous },
            ),
            _ => None,
        }
    }

    /// The configuration that the arguments stand for.
    pub open spec fn derived(args: Args) -> Config {
        Config {
            client_id: args.client_id,
            client_key: args.client_key,
            port: args.port,
            cache_dir: args.cache_dir,
            temp_dir: args.temp_dir,
            cache_size_bytes: (args.cache_size_gb * 1073741824) as u64,
            max_disk_usage: if args.max_disk_usage > 99 {
                99
            } else {
                args.max_disk_usage
            },
            gallery_download_enabled: args.gallery_download_enabled,
            gallery_api: args.gallery_api,
            exhentai_cookies: Config::cookies(args),
            database_path: args.database_path,
            log_level: args.log_level,
            log_json: args.log_json,
            download_workers: args.download_workers,
            request_timeout: args.request_timeout,
            static_ranges: args.static_ranges,
            bind_address: args.bind_address,
            max_upload_speed: limit_in_bytes(args.max_upload_speed, 1024) as i64,
            max_download_speed: limit_in_bytes(args.max_download_speed, 1024) as i64,
            max_hourly_bandwidth: limit_in_bytes(args.max_hourly_bandwidth, 1048576) as i64,
            proxy_mode: args.proxy_mode,
            min_free_space_bytes: (args.min_free_space_gb * 1073741824) as u64,
            enable_metrics: args.enable_metrics,
            tui: args.tui,
        }
    }

    /// Create the configuration from the arguments.
    pub fn from_args(args: Args) -> (r: Result<Self, ConfigError>)
        requires
            args.in_range(),
        ensures
            r == Ok::<Config, ConfigError>(Config::derived(args)),
    {
        let exhentai_cookies = match (&args.exhentai_member_id, &args.exhentai_pass_hash) {
            (Some(member_id), Some(pass_hash)) => Some(
                ExHentaiCookies {
                    member_id: member_id.clone(),
                    pass_hash: pass_hash.clone(),
                    igneous: match &args.exhentai_igneous {
                        Some(igneous) => Some(igneous.clone()),
                        None => None,
                    },
                },
            ),
            _ => None,
        };

        let max_upload_speed: i64 = if args.max_upload_speed > 0 {
            args.max_upload_speed * 1024
        } else {
            -1
        };
        let max_download_speed: i64 = if args.max_download_speed > 0 {
            args.max_download_speed * 1024
        } else {
            -1
        };
        let max_hourly_bandwidth: i64 = if args.max_hourly_bandwidth > 0 {
            args.max_hourly_bandwidth * 1024 * 1024
        } else {
            -1
        };
        let max_disk_usage: u8 = if args.max_disk_usage > 99 {
            99
        } else {
            args.max_disk_usage
        };

        Ok(
            Config {
                client_id: args.client_id,
                client_key: args.client_key,
                port: args.port,
                cache_dir: args.cache_dir,
                temp_dir: args.temp_dir,
                cache_size_bytes: args.cache_size_gb * 1024 * 1024 * 1024,
                max_disk_usage,
                gallery_download_enabled: args.gallery_download_enabled,
                gallery_api: args.gallery_api,
                exhentai_cookies,
                database_path: args.database_path,
                log_level: args.log_level,
                log_json: args.log_json,
                download_workers: args.download_workers,
                request_timeout: args.request_timeout,
                static_ranges: args.static_ranges,
                bind_address: args.bind_address,
                max_upload_speed,
                max_download_speed,
                max_hourly_bandwidth,
                proxy_mode: args.proxy_mode,
                min_free_space_bytes: args.min_free_space_gb * 1024 * 1024 * 1024,
                enable_metrics: args.enable_metrics,
                tui: args.tui,
            },
        )
    }

    /// Get the full bind address string.
    pub fn bind_addr(&self) -> (res: String)
        ensures
            res@ == self.bind_address@ + ":"@ + text::decimal(self.port as nat),
    {
        let mut res = self.bind_address.clone();
        res.append(":");
        res.append(text::decimal_of(self.port as u64).as_str());
        res
    }

    /// Check if ExHentai access is configured.
    pub fn has_exhentai_access(&self) -> (r: bool)
        ensures
            r == (self.exhentai_cookies is Some),
    {
        self.exhentai_cookies.is_some()
    }
}

impl Default for Config {
    fn default() -> (r: Self)
        ensures
            r.client_id@ == ""@,
            r.client_key@ == ""@,
            r.port == 8080,
            r.cache_dir@ == "./cache"@,
            r.temp_dir@ == "./temp"@,
            r.cache_size_bytes == 107374182400,
            r.max_disk_usage == 95,
            r.gallery_download_enabled,
            r.gallery_api@ == "https://api.e-hentai.org"@,
            r.exhentai_cookies is None,
            r.database_path@ == "./data/hah.db"@,
            r.log_level@ == "info"@,
            !r.log_json,
            r.download_workers == 4,
            r.request_timeout == 30,
            !r.static_ranges,
            r.bind_address@ == "0.0.0.0"@,
            r.max_upload_speed == -1,
            r.max_download_speed == -1,
            r.max_hourly_bandwidth == -1,
            !r.proxy_mode,
            r.min_free_space_bytes == 5368709120,
            r.enable_metrics,
            !r.tui,
    {
        proof {
            reveal_strlit("");
        }
        Config {
            client_id: String::new(),
            client_key: String::new(),
            port: 8080,
            cache_dir: "./cache".to_string(),
            temp_dir: "./temp".to_string(),
            cache_size_bytes: 100 * 1024 * 1024 * 1024,
            max_disk_usage: 95,
            gallery_download_enabled: true,
            gallery_api: "https://api.e-hentai.org".to_string(),
            exhentai_cookies: None,
            database_path: "./data/hah.db".to_string(),
            log_level: "info".to_string(),
            log_json: false,
            download_workers: 4,
            request_timeout: 30,
            static_ranges: false,
            bind_address: "0.0.0.0".to_string(),
            max_upload_speed: -1,
            max_download_speed: -1,
            max_hourly_bandwidth: -1,
            proxy_mode: false,
            min_free_space_bytes: 5 * 1024 * 1024 * 1024,
            enable_metrics: true,
            tui: false,
        }
    }
}

/// What `Config::derived` makes of a limit is -1 or a positive number of bytes.
pub proof fn law_limits_are_positive_or_unlimited(args: Args)
    requires
        args.in_range(),
    ensures
        Config::derived(args).max_upload_speed == -1 || Config::derived(args).max_upload_speed > 0,
        Config::derived(args).max_download_speed == -1 || Config::derived(args).max_download_speed
            > 0,
        Config::derived(args).max_hourly_bandwidth == -1 || Config::derived(
            args,
        ).max_hourly_bandwidth > 0,
        Config::derived(args).max_disk_usage <= 99,
{
}

impl ExHentaiCookies {
    /// The cookies as they are set, each with the site it is for.
    pub open spec fn lines(&self) -> Seq<(Seq<char>, Seq<char>)> {
        let member = "ipb_member_id="@ + self.member_id@;
        let pass = "ipb_pass_hash="@ + self.pass_hash@;
        let ex = "https://exhentai.org"@;
        let eh = "https://e-hentai.org"@;
        match self.igneous {
            Some(igneous) => seq![
                (member, ex),
                (pass, ex),
                ("igneous="@ + igneous@, ex),
                (member, eh),
                (pass, eh),
            ],
            None => seq![(member, ex), (pass, ex), (member, eh), (pass, eh)],
        }
    }

    /// The cookies to set, each with the site it is for.
    pub fn cookie_lines(&self) -> (r: Vec<(String, &'static str)>)
        ensures
            r@.map_values(|c: (String, &'static str)| (c.0@, c.1@)) == self.lines(),
    {
        let member = "ipb_member_id=".to_string().concat(self.member_id.as_str());
        let pass = "ipb_pass_hash=".to_string().concat(self.pass_hash.as_str());
        let mut r: Vec<(String, &'static str)> = Vec::new();
        r.push((member.clone(), "https://exhentai.org"));
        r.push((pass.clone(), "https://exhentai.org"));
        if let Some(igneous) = &self.igneous {
            r.push(("igneous=".to_string().concat(igneous.as_str()), "https://exhentai.org"));
        }
        r.push((member, "https://e-hentai.org"));
        r.push((pass, "https://e-hentai.org"));
        proof {
            assert(r@.map_values(|c: (String, &'static str)| (c.0@, c.1@)) =~= self.lines());
        }
        r
    }
}

/// The configuration counts in bytes what the arguments count in kilobytes, megabytes and
/// gigabytes; a limit that is not positive is none; the disk is never filled to more than
/// 99 percent; the cookies need both the number and the hash; and all else is as given.
pub proof fn law_arguments_are_taken(
    args: Args,
    config: Result<Config, ConfigError>,
    fits: bool,
)
    requires
        call_ensures(Config::from_args, (args,), config),
        call_ensures(Args::is_in_range, (&args,), fits),
        fits,
    ensures
        config is Ok,
        config matches Ok(c) ==> {
            &&& c.client_id == args.client_id && c.client_key == args.client_key
            &&& c.port == args.port && c.bind_address == args.bind_address
            &&& c.cache_dir == args.cache_dir && c.temp_dir == args.temp_dir
            &&& c.cache_size_bytes == args.cache_size_gb * 1024 * 1024 * 1024
            &&& c.min_free_space_bytes == args.min_free_space_gb * 1024 * 1024 * 1024
            &&& args.max_disk_usage <= 99 ==> c.max_disk_usage == args.max_disk_usage
            &&& args.max_disk_usage > 99 ==> c.max_disk_usage == 99
            &&& c.gallery_download_enabled == args.gallery_download_enabled
            &&& c.gallery_api == args.gallery_api && c.database_path == args.database_path
            &&& c.log_level == args.log_level && c.log_json == args.log_json
            &&& c.download_workers == args.download_workers
            &&& c.request_timeout == args.request_timeout
            &&& c.static_ranges == args.static_ranges && c.proxy_mode == args.proxy_mode
            &&& c.enable_metrics == args.enable_metrics && c.tui == args.tui
            &&& args.max_upload_speed > 0 ==> c.max_upload_speed == args.max_upload_speed * 1024
            &&& args.max_upload_speed <= 0 ==> c.max_upload_speed == -1
            &&& args.max_download_speed > 0 ==> c.max_download_speed == args.max_download_speed
                * 1024
            &&& args.max_download_speed <= 0 ==> c.max_download_speed == -1
            &&& args.max_hourly_bandwidth > 0 ==> c.max_hourly_bandwidth
                == args.max_hourly_bandwidth * 1024 * 1024
            &&& args.max_hourly_bandwidth <= 0 ==> c.max_hourly_bandwidth == -1
            &&& c.exhentai_cookies is Some <==> args.exhentai_member_id is Some
                && args.exhentai_pass_hash is Some
            &&& c.exhentai_cookies matches Some(cookies) ==> cookies.member_id
                == args.exhentai_member_id->0 && cookies.pass_hash == args.exhentai_pass_hash->0
                && cookies.igneous == args.exhentai_igneous
        },
{
}

/// The arguments are in range where everything that is counted in bytes fits.
pub proof fn law_range_is_checked(args: Args, fits: bool)
    requires
        call_ensures(Args::is_in_range, (&args,), fits),
    ensures
        fits <==> {
            &&& args.max_upload_speed * 1024 <= 0x7fff_ffff_ffff_ffff
            &&& args.max_download_speed * 1024 <= 0x7fff_ffff_ffff_ffff
            &&& args.max_hourly_bandwidth * 1048576 <= 0x7fff_ffff_ffff_ffff
            &&& args.cache_size_gb * 1073741824 <= 0xffff_ffff_ffff_ffff
            &&& args.min_free_space_gb * 1073741824 <= 0xffff_ffff_ffff_ffff
        },
{
}

/// The cookies are set for both sites, but for the one that only the first knows; where
/// the client listens, and which site it has; and the errors in words.
pub proof fn law_cookies_are_set(
    cookies: ExHentaiCookies,
    set: Vec<(String, &'static str)>,
    config: Config,
    address: String,
    access: bool,
    e: ConfigError,
    told: String,
)
    requires
        call_ensures(ExHentaiCookies::cookie_lines, (&cookies,), set),
        call_ensures(Config::bind_addr, (&config,), address),
        call_ensures(Config::has_exhentai_access, (&config,), access),
        call_ensures(ConfigError::message, (&e,), told),
    ensures
        set@.len() == (if cookies.igneous is Some {
            5int
        } else {
            4
        }),
        set@[0].0@ == "ipb_member_id="@ + cookies.member_id@ && set@[0].1@
            == "https://exhentai.org"@,
        set@[1].0@ == "ipb_pass_hash="@ + cookies.pass_hash@ && set@[1].1@
            == "https://exhentai.org"@,
        cookies.igneous matches Some(igneous) ==> set@[2].0@ == "igneous="@ + igneous@ && set@[2].1@
            == "https://exhentai.org"@,
        set@[set@.len() - 2].0@ == "ipb_member_id="@ + cookies.member_id@ && set@[set@.len()
            - 2].1@ == "https://e-hentai.org"@,
        set@[set@.len() - 1].0@ == "ipb_pass_hash="@ + cookies.pass_hash@ && set@[set@.len()
            - 1].1@ == "https://e-hentai.org"@,
        address@ == config.bind_address@ + ":"@ + text::decimal(config.port as nat),
        access <==> config.exhentai_cookies is Some,
        e matches ConfigError::MissingRequired(s) ==> told@ == "Missing required configuration: "@
            + s@,
        e matches ConfigError::InvalidValue(s) ==> told@ == "Invalid configuration value: "@ + s@,
        e matches ConfigError::Io(s) ==> told@ == "IO error: "@ + s@,
{
    let lines = set@.map_values(|c: (String, &'static str)| (c.0@, c.1@));
    assert(lines.len() == set@.len());
    assert forall|i: int| 0 <= i < set@.len() implies lines[i] == (
        (#[trigger] set@[i]).0@,
        set@[i].1@,
    ) by {}
    assert(lines == cookies.lines());
}

/// The configuration of a client that was given none.
pub proof fn law_defaults_are_set(config: Config)
    requires
        call_ensures(Config::default, (), config),
    ensures
        config.client_id@.len() == 0 && config.client_key@.len() == 0,
        config.port == 8080 && config.bind_address@ == "0.0.0.0"@,
        config.cache_dir@ == "./cache"@ && config.temp_dir@ == "./temp"@,
        config.cache_size_bytes == 100 * 1024 * 1024 * 1024,
        config.min_free_space_bytes == 5 * 1024 * 1024 * 1024,
        config.max_disk_usage == 95 && config.gallery_download_enabled,
        config.gallery_api@ == "https://api.e-hentai.org"@,
        config.exhentai_cookies is None && config.database_path@ == "./data/hah.db"@,
        config.log_level@ == "info"@ && !config.log_json && config.download_workers == 4,
        config.request_timeout == 30 && !config.static_ranges && !config.proxy_mode,
        config.max_upload_speed == -1 && config.max_download_speed == -1,
        config.max_hourly_bandwidth == -1 && config.enable_metrics && !config.tui,
{
    reveal_strlit("");
}

}
