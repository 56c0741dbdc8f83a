//! Metrics and statistics: trust, quality, uptime and performance of the client.
//!
//! Scores are exact fractions. Times on the running clock are nanoseconds;
//! timestamps are seconds since the epoch.

use crate::rounding;
use crate::text;
use vstd::prelude::*;

verus! {

/// A fraction of two counts.
#[derive(Debug, Clone, Copy, PartialEq, Eq, Structural)]
pub struct Ratio {
    pub numerator: u128,
    pub denominator: u128,
}

impl Ratio {
    /// A score lies between zero and one.
    pub open spec fn is_score(&self) -> bool {
        0 < self.denominator && self.numerator <= self.denominator
    }

    /// `self` is no less than `other`.
    pub open spec fn at_least(&self, other: &Ratio) -> bool {
        self.numerator * other.denominator >= other.numerator * self.denominator
    }
}

/// `part` of `part + rest`; a full score where there is nothing yet.
pub open spec fn rate(part: u64, rest: u64) -> Ratio {
    if part + rest == 0 {
        Ratio { numerator: 1, denominator: 1 }
    } else {
        Ratio { numerator: part as u128, denominator: (part + rest) as u128 }
    }
}

/// The trust that a client has at least: the benefit of the doubt, which it loses
/// with its failures and with nothing else.
pub open spec fn minimum_trust(failed: int) -> Ratio {
    if failed < 100 {
        Ratio { numerator: 9, denominator: 10 }
    } else if failed < 1000 {
        Ratio { numerator: 1, denominator: 2 }
    } else {
        Ratio { numerator: 0, denominator: 1 }
    }
}

/// The success rate, or the minimum trust where that is more.
pub open spec fn trust(successful: u64, failed: u64) -> Ratio {
    let minimum = minimum_trust(failed as int);
    if rate(successful, failed).at_least(&minimum) {
        rate(successful, failed)
    } else {
        minimum
    }
}

fn rate_of(part: u64, rest: u64) -> (r: Ratio)
    ensures
        r == rate(part, rest),
{
    let total: u128 = part as u128 + rest as u128;
    if total == 0 {
        Ratio { numerator: 1, denominator: 1 }
    } else {
        Ratio { numerator: part as u128, denominator: total }
    }
}

/// H@H performance metrics.
#[derive(Debug, Clone, Copy)]
pub struct HahMetrics {
    /// Trust score: increases with successful serves, decreases with failures.
    pub trust: Ratio,
    /// The quality score is the mean of these two scores.
    pub quality: (Ratio, Ratio),
    /// Uptime in seconds since the client started.
    pub uptime_seconds: u64,
    /// Total file requests received.
    pub total_requests: u64,
    /// Successful file serves.
    pub successful_serves: u64,
    /// Failed file serves.
    pub failed_serves: u64,
    /// Cache hits.
    pub cache_hits: u64,
    /// Cache misses.
    pub cache_misses: u64,
    /// Total bytes served.
    pub bytes_served: u64,
    /// Total bytes received (downloads).
    pub bytes_received: u64,
    /// Number of connections handled.
    pub connections_handled: u64,
    /// Average response time in milliseconds.
    pub avg_response_time_ms: Ratio,
    /// Number of heartbeats sent.
    pub heartbeats_sent: u64,
    /// Successful heartbeats.
    pub heartbeats_success: u64,
    /// Static range files served.
    pub static_range_serves: u64,
    /// Files downloaded for static ranges.
    pub static_range_downloads: u64,
    /// Current connection count.
    pub current_connections: u64,
    /// Peak concurrent connections.
    pub peak_connections: u64,
    /// Start timestamp.
    pub start_time: i64,
    /// Last activity timestamp.
    pub last_activity: i64,
    /// Number of errors encountered.
    pub error_count: u64,
}

/// Metrics collector.
#[derive(Debug, Clone, Copy)]
pub struct MetricsCollector {
    /// Start on the running clock, for the uptime.
    pub start_instant: u64,
    /// Start timestamp.
    pub start_time: i64,
    pub total_requests: u64,
    pub successful_serves: u64,
    pub failed_serves: u64,
    pub cache_hits: u64,
    pub cache_misses: u64,
    pub bytes_served: u64,
    pub bytes_received: u64,
    pub connections_handled: u64,
    pub current_connections: u64,
    pub peak_connections: u64,
    pub heartbeats_sent: u64,
    pub heartbeats_success: u64,
    pub static_range_serves: u64,
    pub static_range_downloads: u64,
    pub error_count: u64,
    /// Sum of all response times in milliseconds.
    pub response_time_ms: u64,
    /// Number of response times.
    pub responses: u64,
}

impl MetricsCollector {
    /// A collector that has counted nothing.
    pub open spec fn started(start_instant: u64, start_time: i64) -> MetricsCollector {
        MetricsCollector {
            start_instant,
            start_time,
            total_requests: 0,
            successful_serves: 0,
            failed_serves: 0,
            cache_hits: 0,
            cache_misses: 0,
            bytes_served: 0,
            bytes_received: 0,
            connections_handled: 0,
            current_connections: 0,
            peak_connections: 0,
            heartbeats_sent: 0,
            heartbeats_success: 0,
            static_range_serves: 0,
            static_range_downloads: 0,
            error_count: 0,
            response_time_ms: 0,
            responses: 0,
        }
    }

    pub fn new(start_instant: u64, start_time: i64) -> (r: Self)
        ensures
            r == MetricsCollector::started(start_instant, start_time),
    {
        MetricsCollector {
            start_instant,
            start_time,
            total_requests: 0,
            successful_serves: 0,
            failed_serves: 0,
            cache_hits: 0,
            cache_misses: 0,
            bytes_served: 0,
            bytes_received: 0,
            connections_handled: 0,
            current_connections: 0,
            peak_connections: 0,
            heartbeats_sent: 0,
            heartbeats_success: 0,
            static_range_serves: 0,
            static_range_downloads: 0,
            error_count: 0,
            response_time_ms: 0,
            responses: 0,
        }
    }

    /// The collector with one request more.
    pub open spec fn requested(&self) -> MetricsCollector {
        MetricsCollector { total_requests: self.total_requests.wrapping_add(1), ..*self }
    }

    /// The collector with one successful serve of `bytes` more.
    pub open spec fn served(&self, bytes: u64) -> MetricsCollector {
        MetricsCollector {
            successful_serves: self.successful_serves.wrapping_add(1),
            bytes_served: self.bytes_served.wrapping_add(bytes),
            ..*self
        }
    }

    /// The collector with one failed serve more.
    pub open spec fn failed(&self) -> MetricsCollector {
        MetricsCollector { failed_serves: self.failed_serves.wrapping_add(1), ..*self }
    }

    /// The collector with one cache hit more.
    pub open spec fn hit(&self) -> MetricsCollector {
        MetricsCollector { cache_hits: self.cache_hits.wrapping_add(1), ..*self }
    }

    /// The collector with one cache miss more.
    pub open spec fn missed(&self) -> MetricsCollector {
        MetricsCollector { cache_misses: self.cache_misses.wrapping_add(1), ..*self }
    }

    /// The collector with one error more.
    pub open spec fn errored(&self) -> MetricsCollector {
        MetricsCollector { error_count: self.error_count.wrapping_add(1), ..*self }
    }

    /// The collector with one response time more.
    pub open spec fn responded(&self, ms: u64) -> MetricsCollector {
        MetricsCollector {
            response_time_ms: self.response_time_ms.wrapping_add(ms),
            responses: self.responses.wrapping_add(1),
            ..*self
        }
    }

    /// Record a file request.
    pub fn record_request(&mut self)
        ensures
            *final(self) == old(self).requested(),
    {
        self.total_requests = self.total_requests.wrapping_add(1);
    }

    /// Record a successful serve.
    pub fn record_successful_serve(&mut self, bytes: u64)
        ensures
            *final(self) == old(self).served(bytes),
    {
        self.successful_serves = self.successful_serves.wrapping_add(1);
        self.bytes_served = self.bytes_served.wrapping_add(bytes);
    }

    /// Record a failed serve.
    pub fn record_failed_serve(&mut self)
        ensures
            *final(self) == old(self).failed(),
    {
        self.failed_serves = self.failed_serves.wrapping_add(1);
    }

    /// Record a cache hit.
    pub fn record_cache_hit(&mut self)
        ensures
            *final(self) == old(self).hit(),
    {
        self.cache_hits = self.cache_hits.wrapping_add(1);
    }

    /// Record a cache miss.
    pub fn record_cache_miss(&mut self)
        ensures
            *final(self) == old(self).missed(),
    {
        self.cache_misses = self.cache_misses.wrapping_add(1);
    }

    /// Record bytes received (downloaded).
    pub fn record_bytes_received(&mut self, bytes: u64)
        ensures
            *final(self) == (MetricsCollector {
                bytes_received: old(self).bytes_received.wrapping_add(bytes),
                ..*old(self)
            }),
    {
        self.bytes_received = self.bytes_received.wrapping_add(bytes);
    }

    /// The collector with one connection more.
    pub open spec fn connected(&self) -> MetricsCollector {
        let current = self.current_connections.wrapping_add(1);
        MetricsCollector {
            connections_handled: self.connections_handled.wrapping_add(1),
            current_connections: current,
            peak_connections: if current > self.peak_connections {
                current
            } else {
                self.peak_connections
            },
            ..*self
        }
    }

    /// The collector with one connection less.
    pub open spec fn disconnected(&self) -> MetricsCollector {
        MetricsCollector {
            current_connections: self.current_connections.wrapping_sub(1),
            ..*self
        }
    }

    /// Record a connection.
    pub fn record_connection(&mut self)
        ensures
            *final(self) == old(self).connected(),
    {
        self.connections_handled = self.connections_handled.wrapping_add(1);
        self.current_connections = self.current_connections.wrapping_add(1);
        if self.current_connections > self.peak_connections {
            self.peak_connections = self.current_connections;
        }
    }

    /// Record connection closed.
    pub fn record_connection_closed(&mut self)
        ensures
            *final(self) == old(self).disconnected(),
    {
        self.current_connections = self.current_connections.wrapping_sub(1);
    }

    /// Record a response time in milliseconds.
    pub fn record_response_time(&mut self, ms: u64)
        ensures
            *final(self) == old(self).responded(ms),
    {
        self.response_time_ms = self.response_time_ms.wrapping_add(ms);
        self.responses = self.responses.wrapping_add(1);
    }

    /// Record a heartbeat.
    pub fn record_heartbeat(&mut self, success: bool)
        ensures
            *final(self) == (MetricsCollector {
                heartbeats_sent: old(self).heartbeats_sent.wrapping_add(1),
                heartbeats_success: if success {
                    old(self).heartbeats_success.wrapping_add(1)
                } else {
                    old(self).heartbeats_success
                },
                ..*old(self)
            }),
    {
        self.heartbeats_sent = self.heartbeats_sent.wrapping_add(1);
        if success {
            self.heartbeats_success = self.heartbeats_success.wrapping_add(1);
        }
    }

    /// Record static range serve.
    pub fn record_static_range_serve(&mut self)
        ensures
            *final(self) == (MetricsCollector {
                static_range_serves: old(self).static_range_serves.wrapping_add(1),
                ..*old(self)
            }),
    {
        self.static_range_serves = self.static_range_serves.wrapping_add(1);
    }

    /// Record static range download.
    pub fn record_static_range_download(&mut self)
        ensures
            *final(self) == (MetricsCollector {
                static_range_downloads: old(self).static_range_downloads.wrapping_add(1),
                ..*old(self)
            }),
    {
        self.static_range_downloads = self.static_range_downloads.wrapping_add(1);
    }

    /// Record an error.
    pub fn record_error(&mut self)
        ensures
            *final(self) == old(self).errored(),
    {
        self.error_count = self.error_count.wrapping_add(1);
    }

    /// Get uptime in whole seconds.
    pub fn uptime_seconds(&self, now: u64) -> (s: u64)
        ensures
            s == now.saturating_sub(self.start_instant) / 1_000_000_000,
    {
        now.saturating_sub(self.start_instant) / 1_000_000_000
    }

    /// Calculate the local trust score based on the success rate. Clients that have
    /// not failed often are given the benefit of the doubt.
    pub fn calculate_trust(&self) -> (r: Ratio)
        ensures
            r == trust(self.successful_serves, self.failed_serves),
    {
        let rate = rate_of(self.successful_serves, self.failed_serves);
        if self.failed_serves < 100 {
            if rate.numerator * 10 >= 9 * rate.denominator {
                rate
            } else {
                Ratio { numerator: 9, denominator: 10 }
            }
        } else if self.failed_serves < 1000 {
            if rate.numerator * 2 >= 1 * rate.denominator {
                rate
            } else {
                Ratio { numerator: 1, denominator: 2 }
            }
        } else {
            rate
        }
    }

    /// The scores whose mean is the quality.
    pub open spec fn quality(&self) -> (Ratio, Ratio) {
        if self.cache_hits + self.cache_misses == 0 {
            (Ratio { numerator: 1, denominator: 1 }, Ratio { numerator: 1, denominator: 1 })
        } else {
            (
                rate(self.cache_hits, self.cache_misses),
                trust(self.successful_serves, self.failed_serves),
            )
        }
    }

    /// Calculate the local quality score: the mean of the hit rate and the trust.
    pub fn calculate_quality(&self) -> (r: (Ratio, Ratio))
        ensures
            r == self.quality(),
    {
        if self.cache_hits == 0 && self.cache_misses == 0 {
            (Ratio { numerator: 1, denominator: 1 }, Ratio { numerator: 1, denominator: 1 })
        } else {
            (rate_of(self.cache_hits, self.cache_misses), self.calculate_trust())
        }
    }

    /// Get current metrics.
    pub fn get_metrics(&self, now: u64, timestamp: i64) -> (m: HahMetrics)
        ensures
            m == (HahMetrics {
                trust: trust(self.successful_serves, self.failed_serves),
                quality: self.quality(),
                uptime_seconds: now.saturating_sub(self.start_instant) / 1_000_000_000,
                total_requests: self.total_requests,
                successful_serves: self.successful_serves,
                failed_serves: self.failed_serves,
                cache_hits: self.cache_hits,
                cache_misses: self.cache_misses,
                bytes_served: self.bytes_served,
                bytes_received: self.bytes_received,
                connections_handled: self.connections_handled,
                avg_response_time_ms: if self.responses > 0 {
                    Ratio {
                        numerator: self.response_time_ms as u128,
                        denominator: self.responses as u128,
                    }
                } else {
                    Ratio { numerator: 0, denominator: 1 }
                },
                heartbeats_sent: self.heartbeats_sent,
                heartbeats_success: self.heartbeats_success,
                static_range_serves: self.static_range_serves,
                static_range_downloads: self.static_range_downloads,
                current_connections: self.current_connections,
                peak_connections: self.peak_connections,
                start_time: self.start_time,
                last_activity: timestamp,
                error_count: self.error_count,
            }),
    {
        let avg_response_time_ms = if self.responses > 0 {
            Ratio {
                numerator: self.response_time_ms as u128,
                denominator: self.responses as u128,
            }
        } else {
            Ratio { numerator: 0, denominator: 1 }
        };
        HahMetrics {
            trust: self.calculate_trust(),
            quality: self.calculate_quality(),
            uptime_seconds: self.uptime_seconds(now),
            total_requests: self.total_requests,
            successful_serves: self.successful_serves,
            failed_serves: self.failed_serves,
            cache_hits: self.cache_hits,
            cache_misses: self.cache_misses,
            bytes_served: self.bytes_served,
            bytes_received: self.bytes_received,
            connections_handled: self.connections_handled,
            avg_response_time_ms,
            heartbeats_sent: self.heartbeats_sent,
            heartbeats_success: self.heartbeats_success,
            static_range_serves: self.static_range_serves,
            static_range_downloads: self.static_range_downloads,
            current_connections: self.current_connections,
            peak_connections: self.peak_connections,
            start_time: self.start_time,
            last_activity: timestamp,
            error_count: self.error_count,
        }
    }

    /// Get the success rate.
    pub fn success_rate(&self) -> (r: Ratio)
        ensures
            r == rate(self.successful_serves, self.failed_serves),
    {
        rate_of(self.successful_serves, self.failed_serves)
    }

    /// Get the cache hit rate.
    pub fn cache_hit_rate(&self) -> (r: Ratio)
        ensures
            r == rate(self.cache_hits, self.cache_misses),
    {
        rate_of(self.cache_hits, self.cache_misses)
    }

    /// Reset the counters. The peak, the response times and the start stay.
    pub fn reset(&mut self)
        ensures
            *final(self) == (MetricsCollector {
                peak_connections: old(self).peak_connections,
                response_time_ms: old(self).response_time_ms,
                responses: old(self).responses,
                ..MetricsCollector::started(old(self).start_instant, old(self).start_time)
            }),
    {
        self.total_requests = 0;
        self.successful_serves = 0;
        self.failed_serves = 0;
        self.cache_hits = 0;
        self.cache_misses = 0;
        self.bytes_served = 0;
        self.bytes_received = 0;
        self.connections_handled = 0;
        self.current_connections = 0;
        self.heartbeats_sent = 0;
        self.heartbeats_success = 0;
        self.static_range_serves = 0;
        self.static_range_downloads = 0;
        self.error_count = 0;
    }
}

impl Default for MetricsCollector {
    fn default() -> (r: Self)
        ensures
            r == MetricsCollector::started(0, 0),
    {
        Self::new(0, 0)
    }
}

impl HahMetrics {
    /// The metrics of a client that has done nothing.
    pub open spec fn zero() -> HahMetrics {
        HahMetrics {
            trust: Ratio { numerator: 1, denominator: 1 },
            quality: (
                Ratio { numerator: 1, denominator: 1 },
                Ratio { numerator: 1, denominator: 1 },
            ),
            uptime_seconds: 0,
            total_requests: 0,
            successful_serves: 0,
            failed_serves: 0,
            cache_hits: 0,
            cache_misses: 0,
            bytes_served: 0,
            bytes_received: 0,
            connections_handled: 0,
            avg_response_time_ms: Ratio { numerator: 0, denominator: 1 },
            heartbeats_sent: 0,
            heartbeats_success: 0,
            static_range_serves: 0,
            static_range_downloads: 0,
            current_connections: 0,
            peak_connections: 0,
            start_time: 0,
            last_activity: 0,
            error_count: 0,
        }
    }
}

impl Default for HahMetrics {
    fn default() -> (r: Self)
        ensures
            r == HahMetrics::zero(),
    {
        MetricsCollector::new(0, 0).get_metrics(0, 0)
    }
}

/// Trust is a score: from zero to one, no less than the success rate, and at least
/// the minimum for the failures so far. So a client that has served less than a
/// hundred times has a trust of nine tenths at least.
pub proof fn law_trust_is_a_score(successful: u64, failed: u64)
    ensures
        trust(successful, failed).is_score(),
        trust(successful, failed).at_least(&minimum_trust(failed as int)),
        trust(successful, failed).at_least(&rate(successful, failed)),
        successful + failed < 100 ==> trust(successful, failed).at_least(
            &Ratio { numerator: 9, denominator: 10 },
        ),
{
    let minimum = minimum_trust(failed as int);
    let plain = rate(successful, failed);
    assert(plain.numerator * plain.denominator >= plain.numerator * plain.denominator);
    assert(minimum.at_least(&minimum));
}

proof fn lemma_at_least_is_transitive(a: Ratio, b: Ratio, c: Ratio)
    requires
        a.at_least(&b),
        b.at_least(&c),
        a.denominator > 0,
        b.denominator > 0,
        c.denominator > 0,
    ensures
        a.at_least(&c),
{
    let (an, ad) = (a.numerator as int, a.denominator as int);
    let (bn, bd) = (b.numerator as int, b.denominator as int);
    let (cn, cd) = (c.numerator as int, c.denominator as int);
    assert(an * bd * cd >= bn * ad * cd) by (nonlinear_arith)
        requires
            an * bd >= bn * ad,
            cd > 0,
    ;
    assert(bn * cd * ad >= cn * bd * ad) by (nonlinear_arith)
        requires
            bn * cd >= cn * bd,
            ad > 0,
    ;
    assert(an * cd >= cn * ad) by (nonlinear_arith)
        requires
            an * bd * cd >= bn * ad * cd,
            bn * cd * ad >= cn * bd * ad,
            bd > 0,
    ;
}

/// Of two states the trust is no less where neither the success rate nor the minimum
/// is less.
proof fn lemma_trust_follows(s0: u64, f0: u64, s1: u64, f1: u64)
    requires
        rate(s1, f1).at_least(&rate(s0, f0)),
        minimum_trust(f1 as int).at_least(&minimum_trust(f0 as int)),
    ensures
        trust(s1, f1).at_least(&trust(s0, f0)),
{
    law_trust_is_a_score(s1, f1);
    let after = trust(s1, f1);
    if trust(s0, f0) == rate(s0, f0) {
        lemma_at_least_is_transitive(after, rate(s1, f1), rate(s0, f0));
    } else {
        lemma_at_least_is_transitive(after, minimum_trust(f1 as int), minimum_trust(f0 as int));
    }
}

/// Trust increases with successful serves and decreases with failures: whatever was
/// counted before, it never falls on a success and never rises on a failure.
pub proof fn law_trust_follows_the_serves(m: MetricsCollector, bytes: u64)
    ensures
        m.successful_serves < u64::MAX ==> trust(
            m.served(bytes).successful_serves,
            m.served(bytes).failed_serves,
        ).at_least(&trust(m.successful_serves, m.failed_serves)),
        m.failed_serves < u64::MAX ==> trust(m.successful_serves, m.failed_serves).at_least(
            &trust(m.failed().successful_serves, m.failed().failed_serves),
        ),
{
    let (s, f) = (m.successful_serves, m.failed_serves);
    if s < u64::MAX {
        assert((s + 1) * (s + f) >= s * (s + 1 + f)) by (nonlinear_arith);
        lemma_trust_follows(s, f, (s + 1) as u64, f);
    }
    if f < u64::MAX {
        assert(s * (s + f + 1) >= s * (s + f)) by (nonlinear_arith);
        lemma_trust_follows(s, (f + 1) as u64, s, f);
    }
}

/// The peak is at least the number of current connections, whatever connects and
/// disconnects, while only open connections are closed; and closing a connection
/// undoes the count of opening it.
pub proof fn law_peak_covers_current(m: MetricsCollector)
    requires
        m.current_connections <= m.peak_connections,
    ensures
        m.connected().current_connections <= m.connected().peak_connections,
        m.peak_connections <= m.connected().peak_connections,
        m.current_connections > 0 ==> m.disconnected().current_connections
            <= m.disconnected().peak_connections,
        m.connected().disconnected().current_connections == m.current_connections,
{
}

// ---------------------------------------------------------------------------
// Formatting
// ---------------------------------------------------------------------------

/// A number of hundredths, written with two decimals.
pub open spec fn hundredths_text(h: nat) -> Seq<char> {
    text::decimal(h / 100) + "."@ + seq![
        text::digit_char((h / 10 % 10) as int),
        text::digit_char((h % 10) as int),
    ]
}

/// `bytes`, as a double, in multiples of `unit`, with two decimals.
pub open spec fn scaled_text(bytes: nat, unit: nat) -> Seq<char> {
    hundredths_text(rounding::quotient(rounding::nearest_double(bytes) * 100, unit))
}

pub open spec fn bytes_text(bytes: nat) -> Seq<char> {
    if bytes >= 1099511627776 {
        scaled_text(bytes, 1099511627776) + " TB"@
    } else if bytes >= 1073741824 {
        scaled_text(bytes, 1073741824) + " GB"@
    } else if bytes >= 1048576 {
        scaled_text(bytes, 1048576) + " MB"@
    } else if bytes >= 1024 {
        scaled_text(bytes, 1024) + " KB"@
    } else {
        text::decimal(bytes) + " B"@
    }
}

fn scaled(bytes: u64, unit: u64) -> (s: String)
    requires
        unit >= 1024,
    ensures
        s@ == scaled_text(bytes as nat, unit as nat),
{
    let rounded: u128 = rounding::round_to_double(bytes as u128);
    let h: u128 = rounding::nearest_quotient(rounded * 100, unit as u128);
    proof {
        assert(rounded * 100 / unit as int <= rounded * 100 / 1024) by (nonlinear_arith)
            requires
                unit >= 1024,
                rounded >= 0,
        ;
    }
    let mut s = text::decimal_of((h / 100) as u64);
    s.append(".");
    s.push((48 + (h / 10 % 10) as u8) as char);
    s.push((48 + (h % 10) as u8) as char);
    proof {
        assert(s@ =~= hundredths_text(h as nat));
    }
    s
}

/// Format bytes as a human-readable string.
pub fn format_bytes(bytes: u64) -> (s: String)
    ensures
        s@ == bytes_text(bytes as nat),
{
    if bytes >= 1099511627776 {
        scaled(bytes, 1099511627776).concat(" TB")
    } else if bytes >= 1073741824 {
        scaled(bytes, 1073741824).concat(" GB")
    } else if bytes >= 1048576 {
        scaled(bytes, 1048576).concat(" MB")
    } else if bytes >= 1024 {
        scaled(bytes, 1024).concat(" KB")
    } else {
        text::decimal_of(bytes).concat(" B")
    }
}

pub open spec fn duration_text(seconds: nat) -> Seq<char> {
    let days = seconds / 86400;
    let hours = seconds % 86400 / 3600;
    let minutes = seconds % 3600 / 60;
    let secs = seconds % 60;
    if days > 0 {
        text::decimal(days) + "d "@ + text::decimal(hours) + "h "@ + text::decimal(minutes) + "m"@
    } else if hours > 0 {
        text::decimal(hours) + "h "@ + text::decimal(minutes) + "m "@ + text::decimal(secs) + "s"@
    } else if minutes > 0 {
        text::decimal(minutes) + "m "@ + text::decimal(secs) + "s"@
    } else {
        text::decimal(secs) + "s"@
    }
}

/// Format a duration as a human-readable string.
pub fn format_duration(seconds: u64) -> (s: String)
    ensures
        s@ == duration_text(seconds as nat),
{
    let days: u64 = seconds / 86400;
    let hours: u64 = seconds % 86400 / 3600;
    let minutes: u64 = seconds % 3600 / 60;
    let secs: u64 = seconds % 60;
    let mut s: String;
    if days > 0 {
        s = text::decimal_of(days);
        s.append("d ");
        s.append(text::decimal_of(hours).as_str());
        s.append("h ");
        s.append(text::decimal_of(minutes).as_str());
        s.append("m");
    } else if hours > 0 {
        s = text::decimal_of(hours);
        s.append("h ");
        s.append(text::decimal_of(minutes).as_str());
        s.append("m ");
        s.append(text::decimal_of(secs).as_str());
        s.append("s");
    } else if minutes > 0 {
        s = text::decimal_of(minutes);
        s.append("m ");
        s.append(text::decimal_of(secs).as_str());
        s.append("s");
    } else {
        s = text::decimal_of(secs);
        s.append("s");
    }
    s
}

// ---------------------------------------------------------------------------
// Laws
// ---------------------------------------------------------------------------

/// Each event counts one more where it belongs, and nothing else changes.
pub proof fn law_events_are_counted(m: &mut MetricsCollector, n: u64, ok: bool)
    ensures
        call_ensures(MetricsCollector::record_request, (m,), ()) ==> *final(m) == (
        MetricsCollector { total_requests: old(m).total_requests.wrapping_add(1), ..*old(m) }),
        call_ensures(MetricsCollector::record_successful_serve, (m, n), ()) ==> *final(m) == (
        MetricsCollector {
            successful_serves: old(m).successful_serves.wrapping_add(1),
            bytes_served: old(m).bytes_served.wrapping_add(n),
            ..*old(m)
        }),
        call_ensures(MetricsCollector::record_failed_serve, (m,), ()) ==> *final(m) == (
        MetricsCollector { failed_serves: old(m).failed_serves.wrapping_add(1), ..*old(m) }),
        call_ensures(MetricsCollector::record_cache_hit, (m,), ()) ==> *final(m) == (
        MetricsCollector { cache_hits: old(m).cache_hits.wrapping_add(1), ..*old(m) }),
        call_ensures(MetricsCollector::record_cache_miss, (m,), ()) ==> *final(m) == (
        MetricsCollector { cache_misses: old(m).cache_misses.wrapping_add(1), ..*old(m) }),
        call_ensures(MetricsCollector::record_bytes_received, (m, n), ()) ==> *final(m) == (
        MetricsCollector { bytes_received: old(m).bytes_received.wrapping_add(n), ..*old(m) }),
        call_ensures(MetricsCollector::record_response_time, (m, n), ()) ==> *final(m) == (
        MetricsCollector {
            response_time_ms: old(m).response_time_ms.wrapping_add(n),
            responses: old(m).responses.wrapping_add(1),
            ..*old(m)
        }),
        call_ensures(MetricsCollector::record_heartbeat, (m, ok), ()) ==> *final(m) == (
        MetricsCollector {
            heartbeats_sent: old(m).heartbeats_sent.wrapping_add(1),
            heartbeats_success: old(m).heartbeats_success.wrapping_add(
                if ok {
                    1
                } else {
                    0
                },
            ),
            ..*old(m)
        }),
        call_ensures(MetricsCollector::record_static_range_serve, (m,), ()) ==> *final(m) == (
        MetricsCollector { static_range_serves: old(m).static_range_serves.wrapping_add(1), ..*old(m) }),
        call_ensures(MetricsCollector::record_static_range_download, (m,), ()) ==> *final(m) == (
        MetricsCollector {
            static_range_downloads: old(m).static_range_downloads.wrapping_add(1),
            ..*old(m)
        }),
        call_ensures(MetricsCollector::record_error, (m,), ()) ==> *final(m) == (
        MetricsCollector { error_count: old(m).error_count.wrapping_add(1), ..*old(m) }),
{
}

/// A connection counts while it is open; the peak is the most that were open at a time.
pub proof fn law_connections_are_followed(m: &mut MetricsCollector, other: &mut MetricsCollector)
    requires
        call_ensures(MetricsCollector::record_connection, (m,), ()),
        call_ensures(MetricsCollector::record_connection_closed, (other,), ()),
        old(m).current_connections < 0xffff_ffff_ffff_ffff,
        old(other).current_connections > 0,
    ensures
        final(m).current_connections == old(m).current_connections + 1,
        final(m).connections_handled == old(m).connections_handled.wrapping_add(1),
        final(m).peak_connections == (if old(m).current_connections + 1 > old(m).peak_connections {
            old(m).current_connections + 1
        } else {
            old(m).peak_connections as int
        }),
        *final(m) == (MetricsCollector {
            connections_handled: final(m).connections_handled,
            current_connections: final(m).current_connections,
            peak_connections: final(m).peak_connections,
            ..*old(m)
        }),
        final(other).current_connections == old(other).current_connections - 1,
        *final(other) == (MetricsCollector {
            current_connections: final(other).current_connections,
            ..*old(other)
        }),
{
}

/// A rate is the part of the whole, and a full one of nothing. The trust is the success
/// rate; with less than a hundred failures it is at least nine tenths, and with less than
/// a thousand at least a half. The quality is the hit rate and the trust, or full while
/// nothing was asked for.
pub proof fn law_scores_are_computed(
    m: MetricsCollector,
    success: Ratio,
    hits: Ratio,
    trusted: Ratio,
    quality: (Ratio, Ratio),
)
    requires
        call_ensures(MetricsCollector::success_rate, (&m,), success),
        call_ensures(MetricsCollector::cache_hit_rate, (&m,), hits),
        call_ensures(MetricsCollector::calculate_trust, (&m,), trusted),
        call_ensures(MetricsCollector::calculate_quality, (&m,), quality),
    ensures
        m.successful_serves + m.failed_serves == 0 ==> success.numerator == 1 && success.denominator
            == 1,
        m.successful_serves + m.failed_serves > 0 ==> success.numerator == m.successful_serves
            && success.denominator == m.successful_serves + m.failed_serves,
        m.cache_hits + m.cache_misses == 0 ==> hits.numerator == 1 && hits.denominator == 1,
        m.cache_hits + m.cache_misses > 0 ==> hits.numerator == m.cache_hits && hits.denominator
            == m.cache_hits + m.cache_misses,
        m.failed_serves < 100 && 10 * m.successful_serves < 9 * (m.successful_serves
            + m.failed_serves) ==> trusted.numerator == 9 && trusted.denominator == 10,
        100 <= m.failed_serves < 1000 && 2 * m.successful_serves < m.successful_serves
            + m.failed_serves ==> trusted.numerator == 1 && trusted.denominator == 2,
        m.failed_serves < 100 && 10 * m.successful_serves >= 9 * (m.successful_serves
            + m.failed_serves) ==> trusted == success,
        100 <= m.failed_serves < 1000 && 2 * m.successful_serves >= m.successful_serves
            + m.failed_serves ==> trusted == success,
        m.failed_serves >= 1000 ==> trusted == success,
        m.cache_hits + m.cache_misses > 0 ==> quality == (hits, trusted),
        m.cache_hits + m.cache_misses == 0 ==> quality.0.numerator == 1 && quality.0.denominator
            == 1 && quality.1.numerator == 1 && quality.1.denominator == 1,
{
}

/// What the metrics tell of the counters.
pub proof fn law_metrics_are_told(
    m: MetricsCollector,
    now: u64,
    time: i64,
    told: HahMetrics,
    trusted: Ratio,
    quality: (Ratio, Ratio),
    uptime: u64,
)
    requires
        call_ensures(MetricsCollector::get_metrics, (&m, now, time), told),
        call_ensures(MetricsCollector::calculate_trust, (&m,), trusted),
        call_ensures(MetricsCollector::calculate_quality, (&m,), quality),
        call_ensures(MetricsCollector::uptime_seconds, (&m, now), uptime),
    ensures
        told.trust == trusted && told.quality == quality && told.uptime_seconds == uptime,
        now >= m.start_instant ==> uptime == (now - m.start_instant) / 1_000_000_000,
        now < m.start_instant ==> uptime == 0,
        told.total_requests == m.total_requests,
        told.successful_serves == m.successful_serves && told.failed_serves == m.failed_serves,
        told.cache_hits == m.cache_hits && told.cache_misses == m.cache_misses,
        told.bytes_served == m.bytes_served && told.bytes_received == m.bytes_received,
        told.connections_handled == m.connections_handled,
        m.responses > 0 ==> told.avg_response_time_ms.numerator == m.response_time_ms
            && told.avg_response_time_ms.denominator == m.responses,
        m.responses == 0 ==> told.avg_response_time_ms.numerator == 0,
        told.heartbeats_sent == m.heartbeats_sent && told.heartbeats_success
            == m.heartbeats_success,
        told.static_range_serves == m.static_range_serves,
        told.static_range_downloads == m.static_range_downloads,
        told.current_connections == m.current_connections,
        told.peak_connections == m.peak_connections,
        told.start_time == m.start_time && told.last_activity == time,
        told.error_count == m.error_count,
{
}

/// A collector starts with nothing counted, and a reset takes it back there but for the
/// peak and the response times.
pub proof fn law_counting_starts_at_nothing(
    instant: u64,
    time: i64,
    fresh: MetricsCollector,
    m: &mut MetricsCollector,
    start: MetricsCollector,
)
    requires
        call_ensures(MetricsCollector::new, (instant, time), fresh),
        call_ensures(MetricsCollector::new, (old(m).start_instant, old(m).start_time), start),
        call_ensures(MetricsCollector::reset, (m,), ()),
    ensures
        fresh.start_instant == instant && fresh.start_time == time,
        fresh.total_requests == 0 && fresh.successful_serves == 0 && fresh.failed_serves == 0,
        fresh.cache_hits == 0 && fresh.cache_misses == 0,
        fresh.bytes_served == 0 && fresh.bytes_received == 0,
        fresh.connections_handled == 0 && fresh.current_connections == 0 && fresh.peak_connections
            == 0,
        fresh.heartbeats_sent == 0 && fresh.heartbeats_success == 0,
        fresh.static_range_serves == 0 && fresh.static_range_downloads == 0,
        fresh.error_count == 0 && fresh.response_time_ms == 0 && fresh.responses == 0,
        *final(m) == (MetricsCollector {
            peak_connections: old(m).peak_connections,
            response_time_ms: old(m).response_time_ms,
            responses: old(m).responses,
            ..start
        }),
{
}

/// The largest unit that so many bytes fill, and its name.
pub open spec fn is_unit_of(bytes: u64, unit: nat, name: Seq<char>) -> bool {
    ||| 0x400 <= bytes && bytes < 0x10_0000 && unit == 0x400 && name == " KB"@
    ||| 0x10_0000 <= bytes && bytes < 0x4000_0000 && unit == 0x10_0000 && name == " MB"@
    ||| 0x4000_0000 <= bytes && bytes < 0x100_0000_0000 && unit == 0x4000_0000 && name == " GB"@
    ||| 0x100_0000_0000 <= bytes && unit == 0x100_0000_0000 && name == " TB"@
}

/// Bytes in words: a number in the largest of the units that it fills, to the nearest
/// hundredth, of two to the even one; below a kilobyte the number itself. Beyond 53 bits
/// the number is rounded to that many first.
pub proof fn law_bytes_are_written(
    bytes: u64,
    written: String,
    unit: nat,
    name: Seq<char>,
    exact: nat,
    h: nat,
)
    requires
        call_ensures(format_bytes, (bytes,), written),
        exact == rounding::nearest_double(bytes as nat),
        is_unit_of(bytes, unit, name),
        2 * (h * unit - 100 * exact) <= unit,
        2 * (100 * exact - h * unit) <= unit,
        2 * (h * unit - 100 * exact) == unit || 2 * (100 * exact - h * unit) == unit ==> h % 2 == 0,
    ensures
        bytes < 0x20_0000_0000_0000 ==> exact == bytes,
        written@ == text::decimal(h / 100) + seq!['.'] + seq![
            text::digit_char((h / 10 % 10) as int),
            text::digit_char((h % 10) as int),
        ] + name,
{
    if bytes < 0x20_0000_0000_0000 {
        rounding::law_small_numbers_are_exact(bytes as nat);
    }
    reveal_strlit(".");
    assert("."@ =~= seq!['.']);
    let q = rounding::quotient(exact * 100, unit);
    rounding::law_quotients_are_nearest(exact * 100, unit);
    assert(q == h) by {
        if q < h {
            assert(h * unit >= q * unit + unit) by (nonlinear_arith)
                requires
                    h >= q + 1,
            ;
            if q + 1 < h {
                assert(h * unit >= q * unit + 2 * unit) by (nonlinear_arith)
                    requires
                        h >= q + 2,
                ;
            }
        } else if h < q {
            assert(q * unit >= h * unit + unit) by (nonlinear_arith)
                requires
                    q >= h + 1,
            ;
            if h + 1 < q {
                assert(q * unit >= h * unit + 2 * unit) by (nonlinear_arith)
                    requires
                        q >= h + 2,
                ;
            }
        }
    }
}

/// Less than a kilobyte is written as it is.
pub proof fn law_few_bytes_are_written(bytes: u64, written: String)
    requires
        call_ensures(format_bytes, (bytes,), written),
        bytes < 1024,
    ensures
        written@ == text::decimal(bytes as nat) + " B"@,
{
}

/// A duration in words: days, hours and minutes, or hours, minutes and seconds, or fewer,
/// each less than one of the next, that add up to it.
pub proof fn law_durations_are_written(
    seconds: u64,
    written: String,
    days: nat,
    hours: nat,
    minutes: nat,
    rest: nat,
)
    requires
        call_ensures(format_duration, (seconds,), written),
        seconds == 86400 * days + 3600 * hours + 60 * minutes + rest,
        hours < 24,
        minutes < 60,
        rest < 60,
    ensures
        days > 0 ==> written@ == text::decimal(days) + "d "@ + text::decimal(hours) + "h "@
            + text::decimal(minutes) + "m"@,
        days == 0 && hours > 0 ==> written@ == text::decimal(hours) + "h "@ + text::decimal(minutes)
            + "m "@ + text::decimal(rest) + "s"@,
        days == 0 && hours == 0 && minutes > 0 ==> written@ == text::decimal(minutes) + "m "@
            + text::decimal(rest) + "s"@,
        days == 0 && hours == 0 && minutes == 0 ==> written@ == text::decimal(rest) + "s"@,
{
    assert(seconds / 86400 == days);
    assert(seconds % 86400 == 3600 * hours + 60 * minutes + rest);
    assert(seconds % 86400 / 3600 == hours);
    assert(seconds % 3600 == 60 * minutes + rest) by {
        assert(seconds == 3600 * (24 * days + hours) + (60 * minutes + rest));
        vstd::arithmetic::div_mod::lemma_fundamental_div_mod_converse(
            seconds as int,
            3600,
            (24 * days + hours) as int,
            (60 * minutes + rest) as int,
        );
    }
    assert(seconds % 3600 / 60 == minutes);
    assert(seconds % 60 == rest) by {
        assert(seconds == 60 * (1440 * days + 60 * hours + minutes) + rest);
        vstd::arithmetic::div_mod::lemma_fundamental_div_mod_converse(
            seconds as int,
            60,
            (1440 * days + 60 * hours + minutes) as int,
            rest as int,
        );
    }
}

}
