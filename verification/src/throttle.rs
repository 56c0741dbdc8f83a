//! Bandwidth throttling: rate limits for upload and download bandwidth, those of
//! the H@H network and those that the user configured.
//!
//! Times are nanoseconds on a clock that starts at any moment and is read by the
//! caller.

use crate::rounding;
use std::collections::VecDeque;
use vstd::prelude::*;

verus! {

pub const SECOND: u64 = 1_000_000_000;

pub const MINUTE: u64 = 60_000_000_000;

pub const HOUR: u64 = 3_600_000_000_000;

/// How long to wait before a refused transfer is tried again.
pub const RETRY_DELAY: u64 = 10_000_000;

// ---------------------------------------------------------------------------
// A byte counter over a time window
// ---------------------------------------------------------------------------

/// A sample `(time, bytes)` has left the window.
pub open spec fn is_stale(sample: (u64, u64), now: u64, window: u64) -> bool {
    now - sample.0 > window
}

/// The samples from the first on that has not left the window.
pub open spec fn pruned(samples: Seq<(u64, u64)>, now: u64, window: u64) -> Seq<(u64, u64)>
    decreases samples.len(),
{
    if samples.len() > 0 && is_stale(samples.first(), now, window) {
        pruned(samples.drop_first(), now, window)
    } else {
        samples
    }
}

/// All bytes of the samples.
pub open spec fn bytes_of(samples: Seq<(u64, u64)>) -> nat
    decreases samples.len(),
{
    if samples.len() == 0 {
        0
    } else {
        bytes_of(samples.drop_last()) + samples.last().1 as nat
    }
}

proof fn lemma_bytes_first(samples: Seq<(u64, u64)>)
    requires
        samples.len() > 0,
    ensures
        bytes_of(samples) == samples.first().1 + bytes_of(samples.drop_first()),
    decreases samples.len(),
{
    if samples.len() == 1 {
        assert(samples.drop_last() =~= samples.drop_first());
    } else {
        lemma_bytes_first(samples.drop_last());
        assert(samples.drop_first().drop_last() =~= samples.drop_last().drop_first());
    }
}

proof fn lemma_pruned_bytes(samples: Seq<(u64, u64)>, now: u64, window: u64)
    ensures
        bytes_of(pruned(samples, now, window)) <= bytes_of(samples),
    decreases samples.len(),
{
    if samples.len() > 0 && is_stale(samples.first(), now, window) {
        lemma_bytes_first(samples);
        lemma_pruned_bytes(samples.drop_first(), now, window);
    }
}

proof fn lemma_pruned_twice(samples: Seq<(u64, u64)>, now: u64, window: u64)
    ensures
        pruned(pruned(samples, now, window), now, window) == pruned(samples, now, window),
    decreases samples.len(),
{
    if samples.len() > 0 && is_stale(samples.first(), now, window) {
        lemma_pruned_twice(samples.drop_first(), now, window);
    }
}

proof fn lemma_pruned_push(samples: Seq<(u64, u64)>, bytes: u64, now: u64, window: u64)
    ensures
        pruned(pruned(samples, now, window).push((now, bytes)), now, window) == pruned(
            samples.push((now, bytes)),
            now,
            window,
        ),
    decreases samples.len(),
{
    if samples.len() > 0 && is_stale(samples.first(), now, window) {
        lemma_pruned_push(samples.drop_first(), bytes, now, window);
        assert(samples.push((now, bytes)).drop_first() =~= samples.drop_first().push((now, bytes)));
    }
}

/// A time-windowed byte counter.
pub struct WindowedCounter {
    /// `(time, bytes)` pairs, oldest first.
    samples: VecDeque<(u64, u64)>,
    /// Window duration.
    window: u64,
    /// Total bytes of the samples.
    total: u64,
}

impl WindowedCounter {
    pub closed spec fn samples(&self) -> Seq<(u64, u64)> {
        self.samples@
    }

    pub closed spec fn window(&self) -> u64 {
        self.window
    }

    /// The total is the sum of the samples.
    pub closed spec fn wf(&self) -> bool {
        self.total == bytes_of(self.samples@)
    }

    /// The bytes in the window at `now`.
    pub open spec fn total_at(&self, now: u64) -> nat {
        bytes_of(pruned(self.samples(), now, self.window()))
    }

    /// The total still fits with `bytes` added.
    pub open spec fn has_room(&self, bytes: u64) -> bool {
        bytes_of(self.samples()) + bytes <= u64::MAX
    }

    pub fn new(window: u64) -> (r: Self)
        ensures
            r.wf(),
            r.samples() == Seq::<(u64, u64)>::empty(),
            r.window() == window,
    {
        WindowedCounter { samples: VecDeque::with_capacity(1000), window, total: 0 }
    }

    /// Whether the total still fits with `bytes` added.
    pub fn can_add(&self, bytes: u64) -> (r: bool)
        requires
            self.wf(),
        ensures
            r == self.has_room(bytes),
    {
        self.total <= u64::MAX - bytes
    }

    pub fn add(&mut self, bytes: u64, now: u64)
        requires
            old(self).wf(),
            old(self).has_room(bytes),
        ensures
            final(self).wf(),
            final(self).window() == old(self).window(),
            final(self).samples() == pruned(
                old(self).samples().push((now, bytes)),
                now,
                old(self).window(),
            ),
    {
        self.samples.push_back((now, bytes));
        proof {
            assert(self.samples@.drop_last() =~= old(self).samples@);
        }
        self.total = self.total + bytes;
        self.prune(now);
    }

    /// Drop the samples at the front that have left the window.
    pub fn prune(&mut self, now: u64)
        requires
            old(self).wf(),
        ensures
            final(self).wf(),
            final(self).window() == old(self).window(),
            final(self).samples() == pruned(old(self).samples(), now, old(self).window()),
    {
        while self.samples.len() > 0
            invariant
                self.wf(),
                self.window == old(self).window,
                pruned(self.samples@, now, self.window) == pruned(
                    old(self).samples@,
                    now,
                    self.window,
                ),
            ensures
                self.wf(),
                self.window == old(self).window,
                self.samples@ == pruned(old(self).samples@, now, self.window),
            decreases self.samples@.len(),
        {
            let (time, bytes) = self.samples[0];
            if now.saturating_sub(time) > self.window {
                proof {
                    lemma_bytes_first(self.samples@);
                    assert(self.samples@.drop_first() =~= self.samples@.subrange(
                        1,
                        self.samples@.len() as int,
                    ));
                }
                let _ = self.samples.pop_front();
                self.total = self.total.saturating_sub(bytes);
            } else {
                break;
            }
        }
    }

    pub fn get_total(&mut self, now: u64) -> (total: u64)
        requires
            old(self).wf(),
        ensures
            final(self).wf(),
            final(self).window() == old(self).window(),
            final(self).samples() == pruned(old(self).samples(), now, old(self).window()),
            total == old(self).total_at(now),
            final(self).total_at(now) == total,
    {
        self.prune(now);
        proof {
            lemma_pruned_twice(old(self).samples(), now, old(self).window());
        }
        self.total
    }
}

/// The samples were taken one after the other, none after `now`.
pub open spec fn in_order(samples: Seq<(u64, u64)>, now: u64) -> bool {
    &&& forall|i: int, j: int| 0 <= i <= j < samples.len() ==> samples[i].0 <= samples[j].0
    &&& forall|i: int| 0 <= i < samples.len() ==> (#[trigger] samples[i]).0 <= now
}

/// The bytes of those samples that lie in the window.
pub open spec fn bytes_in_window(samples: Seq<(u64, u64)>, now: u64, window: u64) -> nat
    decreases samples.len(),
{
    if samples.len() == 0 {
        0
    } else {
        bytes_in_window(samples.drop_first(), now, window) + if is_stale(
            samples.first(),
            now,
            window,
        ) {
            0
        } else {
            samples.first().1 as nat
        }
    }
}

/// On a clock that does not run backwards a counter's total is the sum of just
/// those samples that are no older than the window.
pub proof fn law_total_is_what_the_window_holds(samples: Seq<(u64, u64)>, now: u64, window: u64)
    requires
        in_order(samples, now),
    ensures
        bytes_of(pruned(samples, now, window)) == bytes_in_window(samples, now, window),
    decreases samples.len(),
{
    if samples.len() > 0 {
        let rest = samples.drop_first();
        assert forall|i: int, j: int| 0 <= i <= j < rest.len() implies rest[i].0 <= rest[j].0 by {
            assert(rest[i] == samples[i + 1]);
            assert(rest[j] == samples[j + 1]);
        }
        assert forall|i: int| 0 <= i < rest.len() implies (#[trigger] rest[i]).0 <= now by {
            assert(rest[i] == samples[i + 1]);
        }
        law_total_is_what_the_window_holds(rest, now, window);
        if !is_stale(samples.first(), now, window) {
            lemma_bytes_first(samples);
            if rest.len() > 0 {
                assert(rest.first() == samples[1]);
                assert(samples[0].0 <= samples[1].0);
            }
        }
    }
}

/// A later look at a counter is not changed by having looked before.
pub proof fn law_pruning_is_not_seen_later(
    samples: Seq<(u64, u64)>,
    earlier: u64,
    now: u64,
    window: u64,
)
    requires
        earlier <= now,
    ensures
        pruned(pruned(samples, earlier, window), now, window) == pruned(samples, now, window),
    decreases samples.len(),
{
    if samples.len() > 0 && is_stale(samples.first(), earlier, window) {
        law_pruning_is_not_seen_later(samples.drop_first(), earlier, now, window);
    }
}

// ---------------------------------------------------------------------------
// The throttler
// ---------------------------------------------------------------------------

/// Bandwidth statistics. The average speed is `total_bytes` over the elapsed time.
#[derive(Debug, Clone, Copy)]
pub struct BandwidthStats {
    /// Bytes transferred in the current second.
    pub bytes_per_second: u64,
    /// Bytes transferred in the current minute.
    pub bytes_per_minute: u64,
    /// Bytes transferred in the current hour.
    pub bytes_per_hour: u64,
    /// Total bytes transferred since start.
    pub total_bytes: u64,
    /// Nanoseconds since start.
    pub elapsed: u64,
    /// Peak speed in bytes per second.
    pub peak_speed: u64,
    /// Number of requests served.
    pub requests_served: u64,
}

impl BandwidthStats {
    pub open spec fn zero() -> BandwidthStats {
        BandwidthStats {
            bytes_per_second: 0,
            bytes_per_minute: 0,
            bytes_per_hour: 0,
            total_bytes: 0,
            elapsed: 0,
            peak_speed: 0,
            requests_served: 0,
        }
    }
}

impl Default for BandwidthStats {
    fn default() -> (r: Self)
        ensures
            r == BandwidthStats::zero(),
    {
        BandwidthStats {
            bytes_per_second: 0,
            bytes_per_minute: 0,
            bytes_per_hour: 0,
            total_bytes: 0,
            elapsed: 0,
            peak_speed: 0,
            requests_served: 0,
        }
    }
}

pub struct ThrottleCounters {
    pub second_counter: WindowedCounter,
    pub minute_counter: WindowedCounter,
    pub hour_counter: WindowedCounter,
}

impl ThrottleCounters {
    pub open spec fn wf(&self) -> bool {
        &&& self.second_counter.wf()
        &&& self.minute_counter.wf()
        &&& self.hour_counter.wf()
        &&& self.second_counter.window() == SECOND
        &&& self.minute_counter.window() == MINUTE
        &&& self.hour_counter.window() == HOUR
    }

    /// No transfer is counted.
    pub open spec fn is_blank(&self) -> bool {
        &&& self.second_counter.samples() == Seq::<(u64, u64)>::empty()
        &&& self.minute_counter.samples() == Seq::<(u64, u64)>::empty()
        &&& self.hour_counter.samples() == Seq::<(u64, u64)>::empty()
    }

    fn blank() -> (r: Self)
        ensures
            r.wf(),
            r.is_blank(),
    {
        ThrottleCounters {
            second_counter: WindowedCounter::new(SECOND),
            minute_counter: WindowedCounter::new(MINUTE),
            hour_counter: WindowedCounter::new(HOUR),
        }
    }
}

/// Bandwidth throttler with configurable limits.
pub struct BandwidthThrottler {
    /// Maximum bytes per second (-1 = unlimited).
    pub max_bytes_per_second: i64,
    /// Maximum bytes per hour (-1 = unlimited).
    pub max_bytes_per_hour: i64,
    /// Server-assigned throttle limit.
    pub server_throttle: i64,
    pub counters: ThrottleCounters,
    /// Start time for average calculation.
    pub start_time: u64,
    /// Total bytes transferred.
    pub total_bytes: u64,
    /// Peak speed.
    pub peak_speed: u64,
    /// Requests served.
    pub requests_served: u64,
}

/// `bytes` more do not exceed the limit, where there is one.
pub open spec fn within(current: nat, bytes: u64, limit: i64) -> bool {
    limit > 0 ==> current + bytes <= limit
}

/// The numerator of the double 0.9, whose denominator is 2^53.
pub const NINE_TENTHS: u128 = 8106479329266893;

/// More than nine tenths of the limit, as doubles compare.
pub open spec fn is_near(current: nat, limit: nat) -> bool {
    rounding::nearest_double(current) * rounding::TWO_53 > rounding::nearest_double(
        rounding::nearest_double(limit) * NINE_TENTHS as nat,
    )
}

fn near(current: u64, limit: u64) -> (r: bool)
    ensures
        r == is_near(current as nat, limit as nat),
{
    let reached: u128 = rounding::round_to_double(current as u128);
    let allowed: u128 = rounding::round_to_double(limit as u128);
    assert(reached * 9007199254740992 <= 36893488147419103230 * 9007199254740992)
        by (nonlinear_arith)
        requires
            reached <= 36893488147419103230,
    ;
    assert(allowed * 8106479329266893 <= 36893488147419103230 * 8106479329266893)
        by (nonlinear_arith)
        requires
            allowed <= 36893488147419103230,
    ;
    reached * rounding::TWO_53 > rounding::round_to_double(allowed * NINE_TENTHS)
}

impl BandwidthThrottler {
    pub open spec fn wf(&self) -> bool {
        self.counters.wf()
    }

    /// The bytes of the current second.
    pub open spec fn second_at(&self, now: u64) -> nat {
        self.counters.second_counter.total_at(now)
    }

    /// The bytes of the current hour.
    pub open spec fn hour_at(&self, now: u64) -> nat {
        self.counters.hour_counter.total_at(now)
    }

    /// `bytes` can be sent at `now` without exceeding a limit.
    pub open spec fn allows(&self, bytes: u64, now: u64) -> bool {
        &&& within(self.second_at(now), bytes, self.server_throttle)
        &&& within(self.second_at(now), bytes, self.max_bytes_per_second)
        &&& within(self.hour_at(now), bytes, self.max_bytes_per_hour)
    }

    /// More than nine tenths of a limit are used up.
    pub open spec fn throttled(&self, now: u64) -> bool {
        ||| self.server_throttle > 0 && is_near(self.second_at(now), self.server_throttle as nat)
        ||| self.max_bytes_per_second > 0 && is_near(
            self.second_at(now),
            self.max_bytes_per_second as nat,
        )
        ||| self.max_bytes_per_hour > 0 && is_near(
            self.hour_at(now),
            self.max_bytes_per_hour as nat,
        )
    }

    /// The counters' totals still fit with `bytes` added.
    pub open spec fn has_room(&self, bytes: u64) -> bool {
        &&& self.counters.second_counter.has_room(bytes)
        &&& self.counters.minute_counter.has_room(bytes)
        &&& self.counters.hour_counter.has_room(bytes)
    }

    /// Only the counters differ, and those at most by samples that had left their
    /// window by `now`.
    pub open spec fn looked_at(&self, before: &BandwidthThrottler, now: u64) -> bool {
        &&& *self == (BandwidthThrottler { counters: self.counters, ..*before })
        &&& seen(
            self.counters.second_counter.samples(),
            before.counters.second_counter.samples(),
            now,
            SECOND,
        )
        &&& seen(
            self.counters.minute_counter.samples(),
            before.counters.minute_counter.samples(),
            now,
            MINUTE,
        )
        &&& seen(
            self.counters.hour_counter.samples(),
            before.counters.hour_counter.samples(),
            now,
            HOUR,
        )
    }

    /// Create a throttler with the given limits. Use -1 for unlimited.
    pub fn new(max_bytes_per_second: i64, max_bytes_per_hour: i64, now: u64) -> (r: Self)
        ensures
            r.wf(),
            r.counters.is_blank(),
            r == (BandwidthThrottler {
                max_bytes_per_second,
                max_bytes_per_hour,
                server_throttle: -1i64,
                counters: r.counters,
                start_time: now,
                total_bytes: 0,
                peak_speed: 0,
                requests_served: 0,
            }),
    {
        BandwidthThrottler {
            max_bytes_per_second,
            max_bytes_per_hour,
            server_throttle: -1,
            counters: ThrottleCounters::blank(),
            start_time: now,
            total_bytes: 0,
            peak_speed: 0,
            requests_served: 0,
        }
    }

    /// Create an unlimited throttler.
    pub fn unlimited(now: u64) -> (r: Self)
        ensures
            r.wf(),
            r.counters.is_blank(),
            r == (BandwidthThrottler {
                max_bytes_per_second: -1i64,
                max_bytes_per_hour: -1i64,
                server_throttle: -1i64,
                counters: r.counters,
                start_time: now,
                total_bytes: 0,
                peak_speed: 0,
                requests_served: 0,
            }),
    {
        Self::new(-1, -1, now)
    }

    /// Set the server-assigned throttle limit.
    pub fn set_server_throttle(&mut self, bytes_per_second: i64)
        ensures
            *final(self) == (BandwidthThrottler { server_throttle: bytes_per_second, ..*old(self) }),
    {
        self.server_throttle = bytes_per_second;
    }

    /// Set the maximum bytes per second.
    pub fn set_max_bps(&mut self, bytes: i64)
        ensures
            *final(self) == (BandwidthThrottler { max_bytes_per_second: bytes, ..*old(self) }),
    {
        self.max_bytes_per_second = bytes;
    }

    /// Set the maximum bytes per hour.
    pub fn set_max_bph(&mut self, bytes: i64)
        ensures
            *final(self) == (BandwidthThrottler { max_bytes_per_hour: bytes, ..*old(self) }),
    {
        self.max_bytes_per_hour = bytes;
    }

    /// Check if `bytes` can be sent right now without exceeding limits.
    pub fn can_send(&mut self, bytes: u64, now: u64) -> (r: bool)
        requires
            old(self).wf(),
        ensures
            final(self).wf(),
            final(self).looked_at(old(self), now),
            r == old(self).allows(bytes, now),
    {
        proof {
            lemma_second_look(self, now);
        }
        if self.server_throttle > 0 {
            let current: u64 = self.counters.second_counter.get_total(now);
            if current as u128 + bytes as u128 > self.server_throttle as u128 {
                return false;
            }
        }
        if self.max_bytes_per_second > 0 {
            let current: u64 = self.counters.second_counter.get_total(now);
            if current as u128 + bytes as u128 > self.max_bytes_per_second as u128 {
                return false;
            }
        }
        if self.max_bytes_per_hour > 0 {
            let current: u64 = self.counters.hour_counter.get_total(now);
            if current as u128 + bytes as u128 > self.max_bytes_per_hour as u128 {
                return false;
            }
        }
        true
    }

    /// Whether a transfer of `bytes` can be recorded.
    pub fn can_record(&self, bytes: u64) -> (r: bool)
        requires
            self.wf(),
        ensures
            r == self.has_room(bytes),
    {
        self.counters.second_counter.can_add(bytes) && self.counters.minute_counter.can_add(bytes)
            && self.counters.hour_counter.can_add(bytes)
    }

    /// `before` with a transfer of `bytes` at `now` counted.
    pub open spec fn recorded(&self, before: &BandwidthThrottler, bytes: u64, now: u64) -> bool {
        &&& self.counters.second_counter.samples() == pruned(
            before.counters.second_counter.samples().push((now, bytes)),
            now,
            SECOND,
        )
        &&& self.counters.minute_counter.samples() == pruned(
            before.counters.minute_counter.samples().push((now, bytes)),
            now,
            MINUTE,
        )
        &&& self.counters.hour_counter.samples() == pruned(
            before.counters.hour_counter.samples().push((now, bytes)),
            now,
            HOUR,
        )
        &&& *self == (BandwidthThrottler {
            counters: self.counters,
            total_bytes: before.total_bytes.wrapping_add(bytes),
            requests_served: before.requests_served.wrapping_add(1),
            peak_speed: if self.second_at(now) > before.peak_speed {
                self.second_at(now) as u64
            } else {
                before.peak_speed
            },
            ..*before
        })
    }

    /// Record a transfer of `bytes`.
    pub fn record_transfer(&mut self, bytes: u64, now: u64)
        requires
            old(self).wf(),
            old(self).has_room(bytes),
        ensures
            final(self).wf(),
            final(self).recorded(old(self), bytes, now),
    {
        self.counters.second_counter.add(bytes, now);
        self.counters.minute_counter.add(bytes, now);
        self.counters.hour_counter.add(bytes, now);
        proof {
            lemma_pruned_twice(
                old(self).counters.second_counter.samples().push((now, bytes)),
                now,
                SECOND,
            );
        }
        self.total_bytes = self.total_bytes.wrapping_add(bytes);
        self.requests_served = self.requests_served.wrapping_add(1);
        let current_second: u64 = self.counters.second_counter.get_total(now);
        if current_second > self.peak_speed {
            self.peak_speed = current_second;
        }
    }

    /// Record a transfer of `bytes` if it can be sent now; otherwise the time to
    /// wait before asking again.
    pub fn throttle_and_record(&mut self, bytes: u64, now: u64) -> (wait: Option<u64>)
        requires
            old(self).wf(),
            old(self).has_room(bytes),
        ensures
            final(self).wf(),
            match wait {
                None => {
                    &&& old(self).allows(bytes, now)
                    &&& final(self).recorded(old(self), bytes, now)
                },
                Some(delay) => {
                    &&& !old(self).allows(bytes, now)
                    &&& delay == RETRY_DELAY
                    &&& final(self).looked_at(old(self), now)
                },
            },
    {
        if !self.can_send(bytes, now) {
            return Some(RETRY_DELAY);
        }
        proof {
            let before = old(self).counters;
            lemma_room_after_look(self, old(self), bytes, now);
            lemma_pruned_push(before.second_counter.samples(), bytes, now, SECOND);
            lemma_pruned_push(before.minute_counter.samples(), bytes, now, MINUTE);
            lemma_pruned_push(before.hour_counter.samples(), bytes, now, HOUR);
        }
        self.record_transfer(bytes, now);
        None
    }

    /// Get current bandwidth statistics.
    pub fn get_stats(&mut self, now: u64) -> (stats: BandwidthStats)
        requires
            old(self).wf(),
        ensures
            final(self).wf(),
            final(self).looked_at(old(self), now),
            stats.bytes_per_second == old(self).second_at(now),
            stats.bytes_per_minute == old(self).counters.minute_counter.total_at(now),
            stats.bytes_per_hour == old(self).hour_at(now),
            stats.total_bytes == old(self).total_bytes,
            stats.elapsed == now.saturating_sub(old(self).start_time),
            stats.peak_speed == old(self).peak_speed,
            stats.requests_served == old(self).requests_served,
    {
        BandwidthStats {
            bytes_per_second: self.counters.second_counter.get_total(now),
            bytes_per_minute: self.counters.minute_counter.get_total(now),
            bytes_per_hour: self.counters.hour_counter.get_total(now),
            total_bytes: self.total_bytes,
            elapsed: now.saturating_sub(self.start_time),
            peak_speed: self.peak_speed,
            requests_served: self.requests_served,
        }
    }

    /// Get current bytes per second.
    pub fn current_bps(&mut self, now: u64) -> (bps: u64)
        requires
            old(self).wf(),
        ensures
            final(self).wf(),
            final(self).looked_at(old(self), now),
            bps == old(self).second_at(now),
    {
        self.counters.second_counter.get_total(now)
    }

    /// Get bytes remaining in the hourly quota, where there is one.
    pub fn hourly_remaining(&mut self, now: u64) -> (r: Option<u64>)
        requires
            old(self).wf(),
        ensures
            final(self).wf(),
            final(self).looked_at(old(self), now),
            match r {
                None => old(self).max_bytes_per_hour < 0,
                Some(left) => {
                    &&& old(self).max_bytes_per_hour >= 0
                    &&& left == (if old(self).hour_at(now) <= old(self).max_bytes_per_hour {
                        old(self).max_bytes_per_hour - old(self).hour_at(now)
                    } else {
                        0
                    })
                },
            },
    {
        if self.max_bytes_per_hour < 0 {
            return None;
        }
        let current: u64 = self.counters.hour_counter.get_total(now);
        Some((self.max_bytes_per_hour as u64).saturating_sub(current))
    }

    /// Check if throttled (at or near limits): past nine tenths of any limit.
    pub fn is_throttled(&mut self, now: u64) -> (r: bool)
        requires
            old(self).wf(),
        ensures
            final(self).wf(),
            final(self).looked_at(old(self), now),
            r == old(self).throttled(now),
    {
        proof {
            lemma_second_look(self, now);
        }
        if self.server_throttle > 0 {
            let current: u64 = self.counters.second_counter.get_total(now);
            if near(current, self.server_throttle as u64) {
                return true;
            }
        }
        if self.max_bytes_per_second > 0 {
            let current: u64 = self.counters.second_counter.get_total(now);
            if near(current, self.max_bytes_per_second as u64) {
                return true;
            }
        }
        if self.max_bytes_per_hour > 0 {
            let current: u64 = self.counters.hour_counter.get_total(now);
            if near(current, self.max_bytes_per_hour as u64) {
                return true;
            }
        }
        false
    }

    /// Reset all counters. The limits stay.
    pub fn reset(&mut self)
        ensures
            final(self).wf(),
            final(self).counters.is_blank(),
            *final(self) == (BandwidthThrottler {
                counters: final(self).counters,
                total_bytes: 0,
                peak_speed: 0,
                requests_served: 0,
                ..*old(self)
            }),
    {
        self.counters = ThrottleCounters::blank();
        self.total_bytes = 0;
        self.peak_speed = 0;
        self.requests_served = 0;
    }
}

impl Default for BandwidthThrottler {
    fn default() -> (r: Self)
        ensures
            r.wf(),
            r.counters.is_blank(),
            r.max_bytes_per_second == -1,
            r.max_bytes_per_hour == -1,
            r.server_throttle == -1,
            r.start_time == 0,
            r.total_bytes == 0,
            r.peak_speed == 0,
            r.requests_served == 0,
    {
        Self::unlimited(0)
    }
}

/// The samples as they were, or with those dropped that had left the window.
pub open spec fn seen(
    samples: Seq<(u64, u64)>,
    before: Seq<(u64, u64)>,
    now: u64,
    window: u64,
) -> bool {
    samples == before || samples == pruned(before, now, window)
}

proof fn lemma_second_look(t: &BandwidthThrottler, now: u64)
    ensures
        ({
            let s = t.counters.second_counter.samples();
            let w = t.counters.second_counter.window();
            pruned(pruned(s, now, w), now, w) == pruned(s, now, w)
        }),
{
    lemma_pruned_twice(
        t.counters.second_counter.samples(),
        now,
        t.counters.second_counter.window(),
    );
}

/// Having looked at a throttler changes nothing of what a look at the same time
/// shows.
pub proof fn lemma_looked_at_again(t: &BandwidthThrottler, before: &BandwidthThrottler, now: u64)
    requires
        before.wf(),
        t.wf(),
        t.looked_at(before, now),
    ensures
        t.second_at(now) == before.second_at(now),
        t.counters.minute_counter.total_at(now) == before.counters.minute_counter.total_at(now),
        t.hour_at(now) == before.hour_at(now),
        forall|later: &BandwidthThrottler| #[trigger]
            later.looked_at(t, now) ==> later.looked_at(before, now),
{
    lemma_pruned_twice(before.counters.second_counter.samples(), now, SECOND);
    lemma_pruned_twice(before.counters.minute_counter.samples(), now, MINUTE);
    lemma_pruned_twice(before.counters.hour_counter.samples(), now, HOUR);
}

proof fn lemma_room_after_look(
    t: &BandwidthThrottler,
    before: &BandwidthThrottler,
    bytes: u64,
    now: u64,
)
    requires
        t.looked_at(before, now),
        before.has_room(bytes),
    ensures
        t.has_room(bytes),
{
    lemma_pruned_bytes(before.counters.second_counter.samples(), now, SECOND);
    lemma_pruned_bytes(before.counters.minute_counter.samples(), now, MINUTE);
    lemma_pruned_bytes(before.counters.hour_counter.samples(), now, HOUR);
}

proof fn lemma_push_total(samples: Seq<(u64, u64)>, bytes: u64, now: u64, window: u64)
    ensures
        bytes_of(pruned(samples.push((now, bytes)), now, window)) == bytes_of(
            pruned(samples, now, window),
        ) + bytes,
    decreases samples.len(),
{
    let longer = samples.push((now, bytes));
    if samples.len() > 0 && is_stale(samples.first(), now, window) {
        lemma_push_total(samples.drop_first(), bytes, now, window);
        assert(longer.drop_first() =~= samples.drop_first().push((now, bytes)));
    } else {
        assert(longer.drop_last() =~= samples);
        assert(pruned(longer, now, window) == longer);
    }
}

proof fn lemma_pruned_after_push(
    samples: Seq<(u64, u64)>,
    sample: (u64, u64),
    now: u64,
    window: u64,
)
    ensures
        pruned(samples.push(sample), now, window) == pruned(
            pruned(samples, now, window).push(sample),
            now,
            window,
        ),
    decreases samples.len(),
{
    if samples.len() > 0 && is_stale(samples.first(), now, window) {
        lemma_pruned_after_push(samples.drop_first(), sample, now, window);
        assert(samples.push(sample).drop_first() =~= samples.drop_first().push(sample));
    }
}

proof fn lemma_wider_window(samples: Seq<(u64, u64)>, now: u64, window: u64, wider: u64)
    requires
        window <= wider,
    ensures
        bytes_of(pruned(samples, now, window)) <= bytes_of(pruned(samples, now, wider)),
    decreases samples.len(),
{
    if samples.len() > 0 && is_stale(samples.first(), now, wider) {
        lemma_wider_window(samples.drop_first(), now, window, wider);
    } else {
        lemma_pruned_bytes(samples, now, window);
    }
}

/// From `now` on a counter with these samples shows what one would that had kept the
/// whole history.
pub open spec fn shows_history(
    samples: Seq<(u64, u64)>,
    history: Seq<(u64, u64)>,
    now: u64,
    window: u64,
) -> bool {
    forall|later: u64|
        now <= later ==> #[trigger] pruned(samples, later, window) == pruned(
            history,
            later,
            window,
        )
}

impl BandwidthThrottler {
    /// The throttler stands for this history of transfers, and the last call was at
    /// `now`: the counters show it, the total is its bytes, and the peak is no less than
    /// the current second and no more than the total.
    pub open spec fn stands_for(&self, history: Seq<(u64, u64)>, now: u64) -> bool {
        &&& self.wf()
        &&& shows_history(self.counters.second_counter.samples(), history, now, SECOND)
        &&& shows_history(self.counters.minute_counter.samples(), history, now, MINUTE)
        &&& shows_history(self.counters.hour_counter.samples(), history, now, HOUR)
        &&& self.total_bytes == bytes_of(history)
        &&& self.second_at(now) <= self.peak_speed <= self.total_bytes
    }
}

/// A throttler that is new or reset stands for no transfers.
pub proof fn law_blank_throttler_has_no_history(t: BandwidthThrottler, now: u64)
    requires
        t.wf(),
        t.counters.is_blank(),
        t.total_bytes == 0,
        t.peak_speed == 0,
    ensures
        t.stands_for(Seq::empty(), now),
{
}

/// On a clock that does not run backwards a transfer that is recorded is added to the
/// history, while the total fits its counter.
pub proof fn law_transfer_joins_the_history(
    before: BandwidthThrottler,
    after: BandwidthThrottler,
    history: Seq<(u64, u64)>,
    earlier: u64,
    bytes: u64,
    now: u64,
)
    requires
        before.stands_for(history, earlier),
        earlier <= now,
        before.total_bytes + bytes <= u64::MAX,
        after.wf(),
        after.recorded(&before, bytes, now),
    ensures
        after.stands_for(history.push((now, bytes)), now),
{
    let sample = (now, bytes);
    let longer = history.push(sample);
    let c = before.counters;
    lemma_history_grows(c.second_counter.samples(), history, earlier, sample, SECOND);
    lemma_history_grows(c.minute_counter.samples(), history, earlier, sample, MINUTE);
    lemma_history_grows(c.hour_counter.samples(), history, earlier, sample, HOUR);
    assert(longer.drop_last() =~= history);
    let second = after.counters.second_counter.samples();
    assert(pruned(second, now, SECOND) == pruned(longer, now, SECOND));
    lemma_pruned_bytes(longer, now, SECOND);
}

proof fn lemma_history_grows(
    samples: Seq<(u64, u64)>,
    history: Seq<(u64, u64)>,
    earlier: u64,
    sample: (u64, u64),
    window: u64,
)
    requires
        shows_history(samples, history, earlier, window),
        earlier <= sample.0,
    ensures
        shows_history(
            pruned(samples.push(sample), sample.0, window),
            history.push(sample),
            sample.0,
            window,
        ),
{
    let kept = pruned(samples.push(sample), sample.0, window);
    assert forall|later: u64| sample.0 <= later implies #[trigger] pruned(kept, later, window)
        == pruned(history.push(sample), later, window) by {
        law_pruning_is_not_seen_later(samples.push(sample), sample.0, later, window);
        lemma_pruned_after_push(samples, sample, later, window);
        lemma_pruned_after_push(history, sample, later, window);
        assert(pruned(samples, later, window) == pruned(history, later, window));
    }
}

/// Looking at a throttler does not change the history, nor do its limits.
pub proof fn law_looking_keeps_the_history(
    before: BandwidthThrottler,
    after: BandwidthThrottler,
    history: Seq<(u64, u64)>,
    earlier: u64,
    now: u64,
    limits: (i64, i64, i64),
)
    requires
        before.stands_for(history, earlier),
        earlier <= now,
        after.wf(),
        after.looked_at(&before, now),
    ensures
        after.stands_for(history, now),
        (BandwidthThrottler {
            server_throttle: limits.0,
            max_bytes_per_second: limits.1,
            max_bytes_per_hour: limits.2,
            ..after
        }).stands_for(history, now),
{
    let (b, a) = (before.counters, after.counters);
    lemma_history_seen(
        b.second_counter.samples(),
        a.second_counter.samples(),
        history,
        earlier,
        now,
        SECOND,
    );
    lemma_history_seen(
        b.minute_counter.samples(),
        a.minute_counter.samples(),
        history,
        earlier,
        now,
        MINUTE,
    );
    lemma_history_seen(
        b.hour_counter.samples(),
        a.hour_counter.samples(),
        history,
        earlier,
        now,
        HOUR,
    );
    let second = b.second_counter.samples();
    assert(pruned(a.second_counter.samples(), now, SECOND) == pruned(second, now, SECOND));
    law_pruning_is_not_seen_later(second, earlier, now, SECOND);
    lemma_pruned_bytes(pruned(second, earlier, SECOND), now, SECOND);
}

proof fn lemma_history_seen(
    before: Seq<(u64, u64)>,
    after: Seq<(u64, u64)>,
    history: Seq<(u64, u64)>,
    earlier: u64,
    now: u64,
    window: u64,
)
    requires
        shows_history(before, history, earlier, window),
        earlier <= now,
        seen(after, before, now, window),
    ensures
        shows_history(after, history, now, window),
        pruned(after, now, window) == pruned(before, now, window),
{
    assert forall|later: u64| now <= later implies #[trigger] pruned(after, later, window)
        == pruned(history, later, window) by {
        law_pruning_is_not_seen_later(before, now, later, window);
        assert(pruned(before, later, window) == pruned(history, later, window));
    }
    lemma_pruned_twice(before, now, window);
}

/// The statistics are ordered: whatever was called before, on a clock that does not run
/// backwards, no more bytes fall into a second than into a minute, an hour and all the
/// time, and the peak lies between the current second and the total.
pub proof fn law_statistics_are_ordered(
    t: BandwidthThrottler,
    history: Seq<(u64, u64)>,
    earlier: u64,
    now: u64,
)
    requires
        t.stands_for(history, earlier),
        earlier <= now,
    ensures
        t.second_at(now) <= t.counters.minute_counter.total_at(now),
        t.counters.minute_counter.total_at(now) <= t.hour_at(now),
        t.hour_at(now) <= t.total_bytes,
        t.second_at(now) <= t.peak_speed,
        t.peak_speed <= t.total_bytes,
{
    let c = t.counters;
    assert(pruned(c.second_counter.samples(), now, SECOND) == pruned(history, now, SECOND));
    assert(pruned(c.minute_counter.samples(), now, MINUTE) == pruned(history, now, MINUTE));
    assert(pruned(c.hour_counter.samples(), now, HOUR) == pruned(history, now, HOUR));
    lemma_wider_window(history, now, SECOND, MINUTE);
    lemma_wider_window(history, now, MINUTE, HOUR);
    lemma_pruned_bytes(history, now, HOUR);
    law_pruning_is_not_seen_later(c.second_counter.samples(), earlier, now, SECOND);
    lemma_pruned_bytes(pruned(c.second_counter.samples(), earlier, SECOND), now, SECOND);
}

/// A throttler without limits never refuses.
pub proof fn law_unlimited_always_sends(t: BandwidthThrottler, bytes: u64, now: u64)
    requires
        t.server_throttle <= 0,
        t.max_bytes_per_second <= 0,
        t.max_bytes_per_hour <= 0,
    ensures
        t.allows(bytes, now),
{
}

/// A transfer counts in full in the current second and hour.
pub proof fn law_transfer_is_counted(
    before: BandwidthThrottler,
    after: BandwidthThrottler,
    bytes: u64,
    now: u64,
)
    requires
        before.wf(),
        after.wf(),
        after.recorded(&before, bytes, now),
    ensures
        after.second_at(now) == before.second_at(now) + bytes,
        after.hour_at(now) == before.hour_at(now) + bytes,
{
    let second = before.counters.second_counter.samples();
    let hour = before.counters.hour_counter.samples();
    lemma_push_total(second, bytes, now, SECOND);
    lemma_push_total(hour, bytes, now, HOUR);
    lemma_pruned_twice(second.push((now, bytes)), now, SECOND);
    lemma_pruned_twice(hour.push((now, bytes)), now, HOUR);
}

/// Transfers that were allowed before they were recorded never exceed a limit.
pub proof fn law_allowed_transfers_keep_the_limits(
    before: BandwidthThrottler,
    after: BandwidthThrottler,
    bytes: u64,
    now: u64,
)
    requires
        before.wf(),
        after.wf(),
        before.allows(bytes, now),
        after.recorded(&before, bytes, now),
    ensures
        after.server_throttle > 0 ==> after.second_at(now) <= after.server_throttle,
        after.max_bytes_per_second > 0 ==> after.second_at(now) <= after.max_bytes_per_second,
        after.max_bytes_per_hour > 0 ==> after.hour_at(now) <= after.max_bytes_per_hour,
{
    law_transfer_is_counted(before, after, bytes, now);
}

/// What has been refused is refused for any larger transfer, and what is allowed
/// is allowed for any smaller one.
pub proof fn law_smaller_transfers_are_allowed(
    t: BandwidthThrottler,
    bytes: u64,
    smaller: u64,
    now: u64,
)
    requires
        t.allows(bytes, now),
        smaller <= bytes,
    ensures
        t.allows(smaller, now),
{
}

/// At the limit is near the limit.
pub proof fn law_at_the_limit_is_near(current: nat, limit: nat)
    requires
        0 < limit <= current,
    ensures
        is_near(current, limit),
{
    rounding::lemma_nearest_monotone(limit, current);
    rounding::lemma_nearest_positive(limit);
    let allowed = rounding::nearest_double(limit);
    let exact = allowed * NINE_TENTHS as nat;
    rounding::lemma_nearest_close(exact);
    assert(exact + exact / 4503599627370496 + 1 < allowed * rounding::TWO_53) by (nonlinear_arith)
        requires
            exact == allowed * 8106479329266893,
            allowed >= 1,
            rounding::TWO_53 == 9007199254740992,
    ;
    assert(rounding::nearest_double(current) * rounding::TWO_53 >= allowed * rounding::TWO_53)
        by (nonlinear_arith)
        requires
            rounding::nearest_double(current) >= allowed,
    ;
}

// ---------------------------------------------------------------------------
// Requests to the server
// ---------------------------------------------------------------------------

/// Rate limiter for API requests (prevents hitting the server too fast).
pub struct RequestRateLimiter {
    /// Minimum delay between requests.
    pub min_delay: u64,
    /// Last request time.
    pub last_request: Option<u64>,
    /// Request counter.
    pub request_count: u64,
}

impl RequestRateLimiter {
    /// How long a request at `now` has to wait.
    pub open spec fn wait_at(&self, now: u64) -> Option<u64> {
        match self.last_request {
            Some(last) => {
                let elapsed = if now >= last {
                    now - last
                } else {
                    0
                };
                if elapsed < self.min_delay {
                    Some((self.min_delay - elapsed) as u64)
                } else {
                    None
                }
            },
            None => None,
        }
    }

    pub fn new(min_delay: u64) -> (r: Self)
        ensures
            r.min_delay == min_delay,
            r.last_request is None,
            r.request_count == 0,
    {
        RequestRateLimiter { min_delay, last_request: None, request_count: 0 }
    }

    /// Acquire a request slot. Where that is too early, the time to wait; the
    /// slot is then taken by `acquire_after_wait`.
    pub fn acquire(&mut self, now: u64) -> (wait: Option<u64>)
        ensures
            wait == old(self).wait_at(now),
            *final(self) == (if wait is Some {
                *old(self)
            } else {
                RequestRateLimiter {
                    last_request: Some(now),
                    request_count: old(self).request_count.wrapping_add(1),
                    ..*old(self)
                }
            }),
    {
        if let Some(last) = self.last_request {
            let elapsed: u64 = now.saturating_sub(last);
            if elapsed < self.min_delay {
                return Some(self.min_delay - elapsed);
            }
        }
        self.acquire_after_wait(now);
        None
    }

    /// Take the slot once the wait is over.
    pub fn acquire_after_wait(&mut self, now: u64)
        ensures
            *final(self) == (RequestRateLimiter {
                last_request: Some(now),
                request_count: old(self).request_count.wrapping_add(1),
                ..*old(self)
            }),
    {
        self.last_request = Some(now);
        self.request_count = self.request_count.wrapping_add(1);
    }

    /// Get the total request count.
    pub fn request_count(&self) -> (n: u64)
        ensures
            n == self.request_count,
    {
        self.request_count
    }
}

/// On a clock that does not run backwards a request that waited as told finds its
/// slot free.
pub proof fn law_wait_is_long_enough(limiter: RequestRateLimiter, now: u64, later: u64)
    requires
        limiter.wait_at(now) is Some,
        limiter.last_request->0 <= now,
        later >= now + limiter.wait_at(now)->0,
    ensures
        limiter.wait_at(later) is None,
{
}

// ---------------------------------------------------------------------------
// What the windows hold
// ---------------------------------------------------------------------------

/// The bytes of those samples whose time lies at most `window` before `now`.
pub open spec fn recent_bytes(samples: Seq<(u64, u64)>, now: u64, window: int) -> int
    decreases samples.len(),
{
    if samples.len() == 0 {
        0
    } else {
        recent_bytes(samples.drop_last(), now, window) + if now - samples.last().0 <= window {
            samples.last().1 as int
        } else {
            0
        }
    }
}

/// No sample is older than one before it.
pub open spec fn oldest_first(samples: Seq<(u64, u64)>) -> bool {
    forall|i: int, j: int| 0 <= i <= j < samples.len() ==> samples[i].0 <= samples[j].0
}

/// A sample counts in a window exactly while its time lies at most the window before now,
/// whatever that time is: of samples that were taken in turn, the total is the bytes of
/// just those. The samples from the first such one on are kept, and no others.
pub proof fn law_window_holds_recent_samples(c: &mut WindowedCounter, now: u64, total: u64, k: int)
    requires
        call_ensures(WindowedCounter::get_total, (c, now), total),
    ensures
        oldest_first(old(c).samples()) ==> total == recent_bytes(
            old(c).samples(),
            now,
            old(c).window() as int,
        ),
        total == bytes_of(final(c).samples()),
        0 <= k <= old(c).samples().len() && (forall|i: int|
            0 <= i < k ==> now - (#[trigger] old(c).samples()[i]).0 > old(c).window())
                && (k < old(c).samples().len() ==> now - old(c).samples()[k].0 <= old(c).window())
            ==> final(c).samples() == old(c).samples().skip(k),
        final(c).window() == old(c).window(),
{
    let samples = old(c).samples();
    if oldest_first(samples) {
        lemma_recent(samples, now, old(c).window());
    }
    if 0 <= k <= samples.len() && (forall|i: int|
        0 <= i < k ==> now - (#[trigger] samples[i]).0 > old(c).window()) && (k < samples.len()
        ==> now - samples[k].0 <= old(c).window()) {
        lemma_kept(samples, now, old(c).window(), k);
    }
}

/// The same of a counter whose old samples are dropped, and of one that a sample is added
/// to, which is the last.
pub proof fn law_samples_are_kept(
    c: &mut WindowedCounter,
    other: &mut WindowedCounter,
    bytes: u64,
    now: u64,
    k: int,
)
    requires
        call_ensures(WindowedCounter::prune, (c, now), ()),
        call_ensures(WindowedCounter::add, (other, bytes, now), ()),
    ensures
        0 <= k <= old(c).samples().len() && (forall|i: int|
            0 <= i < k ==> now - (#[trigger] old(c).samples()[i]).0 > old(c).window())
                && (k < old(c).samples().len() ==> now - old(c).samples()[k].0 <= old(c).window())
            ==> final(c).samples() == old(c).samples().skip(k),
        final(c).window() == old(c).window(),
        0 <= k <= old(other).samples().len() && (forall|i: int|
            0 <= i < k ==> now - (#[trigger] old(other).samples()[i]).0 > old(other).window()) && (k
            < old(other).samples().len() ==> now - old(other).samples()[k].0 <= old(other).window())
            ==> final(other).samples() == old(other).samples().skip(k).push((now, bytes)),
        final(other).window() == old(other).window(),
{
    let samples = old(c).samples();
    if 0 <= k <= samples.len() && (forall|i: int|
        0 <= i < k ==> now - (#[trigger] samples[i]).0 > old(c).window()) && (k < samples.len()
        ==> now - samples[k].0 <= old(c).window()) {
        lemma_kept(samples, now, old(c).window(), k);
    }
    let others = old(other).samples();
    if 0 <= k <= others.len() && (forall|i: int|
        0 <= i < k ==> now - (#[trigger] others[i]).0 > old(other).window()) && (k < others.len()
        ==> now - others[k].0 <= old(other).window()) {
        let longer = others.push((now, bytes));
        assert forall|i: int| 0 <= i < k implies now - (#[trigger] longer[i]).0 > old(other).window() by {
            assert(longer[i] == others[i]);
        }
        lemma_kept(longer, now, old(other).window(), k);
        assert(longer.skip(k) =~= others.skip(k).push((now, bytes)));
    }
}

/// All bytes are the sum of the samples' bytes, and a counter has room just where the sum
/// fits.
pub proof fn law_bytes_are_summed(
    samples: Seq<(u64, u64)>,
    sample: (u64, u64),
    c: WindowedCounter,
    bytes: u64,
    room: bool,
    window: u64,
    fresh: WindowedCounter,
)
    requires
        call_ensures(WindowedCounter::can_add, (&c, bytes), room),
        call_ensures(WindowedCounter::new, (window,), fresh),
    ensures
        bytes_of(Seq::empty()) == 0,
        bytes_of(samples.push(sample)) == bytes_of(samples) + sample.1,
        room <==> bytes_of(c.samples()) + bytes <= 0xffff_ffff_ffff_ffff,
        fresh.samples().len() == 0 && fresh.window() == window,
{
    assert(samples.push(sample).drop_last() =~= samples);
}

proof fn lemma_kept(samples: Seq<(u64, u64)>, now: u64, window: u64, k: int)
    requires
        0 <= k <= samples.len(),
        forall|i: int| 0 <= i < k ==> now - (#[trigger] samples[i]).0 > window,
        k < samples.len() ==> now - samples[k].0 <= window,
    ensures
        pruned(samples, now, window) == samples.skip(k),
    decreases k,
{
    if k > 0 {
        let rest = samples.drop_first();
        assert(now - samples[0].0 > window);
        assert forall|i: int| 0 <= i < k - 1 implies now - (#[trigger] rest[i]).0 > window by {
            assert(rest[i] == samples[i + 1]);
        }
        lemma_kept(rest, now, window, k - 1);
        assert(rest.skip(k - 1) =~= samples.skip(k));
    } else {
        assert(samples.skip(0) =~= samples);
    }
}

proof fn lemma_recent_first(samples: Seq<(u64, u64)>, now: u64, window: int)
    requires
        samples.len() > 0,
    ensures
        recent_bytes(samples, now, window) == recent_bytes(samples.drop_first(), now, window) + (
        if now - samples.first().0 <= window {
            samples.first().1 as int
        } else {
            0
        }),
    decreases samples.len(),
{
    if samples.len() == 1 {
        assert(samples.drop_last() =~= samples.drop_first());
    } else {
        lemma_recent_first(samples.drop_last(), now, window);
        assert(samples.drop_first().drop_last() =~= samples.drop_last().drop_first());
    }
}

proof fn lemma_all_recent(samples: Seq<(u64, u64)>, now: u64, window: int)
    requires
        forall|i: int| 0 <= i < samples.len() ==> now - (#[trigger] samples[i]).0 <= window,
    ensures
        recent_bytes(samples, now, window) == bytes_of(samples),
    decreases samples.len(),
{
    if samples.len() > 0 {
        let rest = samples.drop_last();
        assert forall|i: int| 0 <= i < rest.len() implies now - (#[trigger] rest[i]).0 <= window by {
            assert(rest[i] == samples[i]);
        }
        assert(now - samples[samples.len() - 1].0 <= window);
        lemma_all_recent(rest, now, window);
    }
}

proof fn lemma_recent(samples: Seq<(u64, u64)>, now: u64, window: u64)
    requires
        oldest_first(samples),
    ensures
        bytes_of(pruned(samples, now, window)) == recent_bytes(samples, now, window as int),
    decreases samples.len(),
{
    if samples.len() > 0 && now - samples[0].0 > window {
        let rest = samples.drop_first();
        assert forall|i: int, j: int| 0 <= i <= j < rest.len() implies rest[i].0 <= rest[j].0 by {
            assert(rest[i] == samples[i + 1] && rest[j] == samples[j + 1]);
        }
        lemma_recent(rest, now, window);
        lemma_recent_first(samples, now, window as int);
    } else {
        assert forall|i: int| 0 <= i < samples.len() implies now - (#[trigger] samples[i]).0
            <= window by {
            assert(samples[0].0 <= samples[i].0);
        }
        lemma_all_recent(samples, now, window as int);
    }
}

/// Bytes can be sent just where none of the limits that are set, the server's and the
/// user's per second and the user's per hour, is exceeded by them and what the last second
/// or hour has sent. Limits of 0 or below are none.
pub proof fn law_sending_goes_by_the_limits(
    t: &mut BandwidthThrottler,
    bytes: u64,
    now: u64,
    sent: bool,
    second: int,
    hour: int,
)
    requires
        call_ensures(BandwidthThrottler::can_send, (t, bytes, now), sent),
        old(t).wf(),
        oldest_first(old(t).counters.second_counter.samples()),
        oldest_first(old(t).counters.hour_counter.samples()),
        second == recent_bytes(old(t).counters.second_counter.samples(), now, 1_000_000_000),
        hour == recent_bytes(old(t).counters.hour_counter.samples(), now, 3_600_000_000_000),
    ensures
        sent <==> {
            &&& old(t).server_throttle <= 0 || second + bytes <= old(t).server_throttle
            &&& old(t).max_bytes_per_second <= 0 || second + bytes <= old(t).max_bytes_per_second
            &&& old(t).max_bytes_per_hour <= 0 || hour + bytes <= old(t).max_bytes_per_hour
        },
        final(t).server_throttle == old(t).server_throttle,
        final(t).max_bytes_per_second == old(t).max_bytes_per_second,
        final(t).max_bytes_per_hour == old(t).max_bytes_per_hour,
        final(t).total_bytes == old(t).total_bytes,
        final(t).peak_speed == old(t).peak_speed,
        final(t).requests_served == old(t).requests_served,
{
    lemma_recent(old(t).counters.second_counter.samples(), now, 1_000_000_000);
    lemma_recent(old(t).counters.hour_counter.samples(), now, 3_600_000_000_000);
}

/// A transfer is one more sample of each counter, adds its bytes to the total and one to
/// the requests, and raises the peak to what the last second has sent, where that is more.
pub proof fn law_transfers_are_recorded(
    t: &mut BandwidthThrottler,
    bytes: u64,
    now: u64,
    later: u64,
    counters: ThrottleCounters,
)
    requires
        call_ensures(BandwidthThrottler::record_transfer, (t, bytes, now), ()),
        old(t).wf(),
        counters == old(t).counters,
        now <= later,
        oldest_first(counters.second_counter.samples().push((now, bytes))),
        oldest_first(counters.minute_counter.samples().push((now, bytes))),
        oldest_first(counters.hour_counter.samples().push((now, bytes))),
    ensures
        recent_bytes(final(t).counters.second_counter.samples(), later, 1_000_000_000)
            == recent_bytes(counters.second_counter.samples(), later, 1_000_000_000) + (if later
            - now <= 1_000_000_000 {
            bytes as int
        } else {
            0
        }),
        recent_bytes(final(t).counters.minute_counter.samples(), later, 60_000_000_000)
            == recent_bytes(counters.minute_counter.samples(), later, 60_000_000_000) + (if later
            - now <= 60_000_000_000 {
            bytes as int
        } else {
            0
        }),
        recent_bytes(final(t).counters.hour_counter.samples(), later, 3_600_000_000_000)
            == recent_bytes(counters.hour_counter.samples(), later, 3_600_000_000_000) + (if later
            - now <= 3_600_000_000_000 {
            bytes as int
        } else {
            0
        }),
        old(t).total_bytes + bytes <= 0xffff_ffff_ffff_ffff ==> final(t).total_bytes
            == old(t).total_bytes + bytes,
        old(t).requests_served < 0xffff_ffff_ffff_ffff ==> final(t).requests_served
            == old(t).requests_served + 1,
        recent_bytes(counters.second_counter.samples(), now, 1_000_000_000)
            + bytes <= old(t).peak_speed ==> final(t).peak_speed == old(t).peak_speed,
        recent_bytes(counters.second_counter.samples(), now, 1_000_000_000)
            + bytes > old(t).peak_speed ==> final(t).peak_speed == recent_bytes(
            counters.second_counter.samples(),
            now,
            1_000_000_000,
        ) + bytes,
        final(t).server_throttle == old(t).server_throttle,
        final(t).max_bytes_per_second == old(t).max_bytes_per_second,
        final(t).max_bytes_per_hour == old(t).max_bytes_per_hour,
        final(t).start_time == old(t).start_time,
{
    lemma_recorded(counters.second_counter.samples(), bytes, now, later, 1_000_000_000);
    lemma_recorded(counters.minute_counter.samples(), bytes, now, later, 60_000_000_000);
    lemma_recorded(counters.hour_counter.samples(), bytes, now, later, 3_600_000_000_000);
    let longer = counters.second_counter.samples().push((now, bytes));
    lemma_recent(longer, now, 1_000_000_000);
    lemma_pruned_twice(longer, now, SECOND);
    assert(longer.drop_last() =~= counters.second_counter.samples());
    assert(final(t).second_at(now) == recent_bytes(longer, now, 1_000_000_000));
    assert(bytes_of(final(t).counters.second_counter.samples()) <= u64::MAX);
}

proof fn lemma_recorded(
    samples: Seq<(u64, u64)>,
    bytes: u64,
    now: u64,
    later: u64,
    window: u64,
)
    requires
        now <= later,
        oldest_first(samples.push((now, bytes))),
    ensures
        recent_bytes(pruned(samples.push((now, bytes)), now, window), later, window as int)
            == recent_bytes(samples, later, window as int) + (if later - now <= window {
            bytes as int
        } else {
            0
        }),
{
    let longer = samples.push((now, bytes));
    assert(longer.drop_last() =~= samples);
    lemma_recent_later(longer, now, later, window);
}

proof fn lemma_recent_later(samples: Seq<(u64, u64)>, now: u64, later: u64, window: u64)
    requires
        now <= later,
    ensures
        recent_bytes(pruned(samples, now, window), later, window as int) == recent_bytes(
            samples,
            later,
            window as int,
        ),
    decreases samples.len(),
{
    if samples.len() > 0 && is_stale(samples.first(), now, window) {
        lemma_recent_later(samples.drop_first(), now, later, window);
        lemma_recent_first(samples, later, window as int);
    }
}

/// A transfer that can be sent is recorded; one that cannot has to wait ten milliseconds.
pub proof fn law_throttling_waits(
    t: &mut BandwidthThrottler,
    other: &mut BandwidthThrottler,
    bytes: u64,
    now: u64,
    wait: Option<u64>,
    sent: bool,
)
    requires
        *old(t) == *old(other),
        call_ensures(BandwidthThrottler::throttle_and_record, (t, bytes, now), wait),
        call_ensures(BandwidthThrottler::can_send, (other, bytes, now), sent),
    ensures
        sent <==> wait is None,
        wait matches Some(delay) ==> delay == 10_000_000,
        wait is None ==> final(t).recorded(old(t), bytes, now),
        wait is Some ==> final(t).total_bytes == old(t).total_bytes && final(t).requests_served
            == old(t).requests_served,
{
}

/// What a look at the throttler shows.
pub proof fn law_statistics_are_shown(
    t: &mut BandwidthThrottler,
    now: u64,
    stats: BandwidthStats,
    rate: u64,
    left: Option<u64>,
    throttled: bool,
    counters: ThrottleCounters,
)
    requires
        old(t).wf(),
        counters == old(t).counters,
        oldest_first(counters.second_counter.samples()),
        oldest_first(counters.minute_counter.samples()),
        oldest_first(counters.hour_counter.samples()),
    ensures
        call_ensures(BandwidthThrottler::get_stats, (t, now), stats) ==> {
            &&& stats.bytes_per_second == recent_bytes(
                counters.second_counter.samples(),
                now,
                1_000_000_000,
            )
            &&& stats.bytes_per_minute == recent_bytes(
                counters.minute_counter.samples(),
                now,
                60_000_000_000,
            )
            &&& stats.bytes_per_hour == recent_bytes(
                counters.hour_counter.samples(),
                now,
                3_600_000_000_000,
            )
            &&& stats.total_bytes == old(t).total_bytes
            &&& stats.peak_speed == old(t).peak_speed
            &&& stats.requests_served == old(t).requests_served
            &&& now >= old(t).start_time ==> stats.elapsed == now - old(t).start_time
            &&& now < old(t).start_time ==> stats.elapsed == 0
        },
        call_ensures(BandwidthThrottler::current_bps, (t, now), rate) ==> rate == recent_bytes(
            counters.second_counter.samples(),
            now,
            1_000_000_000,
        ),
        call_ensures(BandwidthThrottler::hourly_remaining, (t, now), left) ==> {
            let hour = recent_bytes(counters.hour_counter.samples(), now, 3_600_000_000_000);
            &&& left is None <==> old(t).max_bytes_per_hour < 0
            &&& left matches Some(bytes) ==> bytes == (if hour <= old(t).max_bytes_per_hour {
                old(t).max_bytes_per_hour - hour
            } else {
                0
            })
        },
        call_ensures(BandwidthThrottler::is_throttled, (t, now), throttled)
            && old(t).server_throttle <= 0x1_0000_0000_0000 && old(t).max_bytes_per_second
            <= 0x1_0000_0000_0000 && old(t).max_bytes_per_hour <= 0x1_0000_0000_0000
                && recent_bytes(
            counters.second_counter.samples(),
            now,
            1_000_000_000,
        ) < 9007199254740992 && recent_bytes(
            counters.hour_counter.samples(),
            now,
            3_600_000_000_000,
        ) < 9007199254740992 ==> {
            let second = recent_bytes(counters.second_counter.samples(), now, 1_000_000_000);
            let hour = recent_bytes(counters.hour_counter.samples(), now, 3_600_000_000_000);
            throttled <==> {
                ||| old(t).server_throttle > 0 && 10 * second > 9 * old(t).server_throttle
                ||| old(t).max_bytes_per_second > 0 && 10 * second > 9 * old(t).max_bytes_per_second
                ||| old(t).max_bytes_per_hour > 0 && 10 * hour > 9 * old(t).max_bytes_per_hour
            }
        },
{
    lemma_recent(counters.second_counter.samples(), now, 1_000_000_000);
    lemma_recent(counters.minute_counter.samples(), now, 60_000_000_000);
    lemma_recent(counters.hour_counter.samples(), now, 3_600_000_000_000);
    let second = old(t).second_at(now);
    let hour = old(t).hour_at(now);
    if second < 9007199254740992 && hour < 9007199254740992 {
        if 0 < old(t).server_throttle <= 0x1_0000_0000_0000 {
            law_near_is_nine_tenths(second, old(t).server_throttle as nat);
        }
        if 0 < old(t).max_bytes_per_second <= 0x1_0000_0000_0000 {
            law_near_is_nine_tenths(second, old(t).max_bytes_per_second as nat);
        }
        if 0 < old(t).max_bytes_per_hour <= 0x1_0000_0000_0000 {
            law_near_is_nine_tenths(hour, old(t).max_bytes_per_hour as nat);
        }
    }
}

/// Near a limit is past nine tenths of it, exactly so for limits up to 2 to the power
/// of 48.
pub proof fn law_near_is_nine_tenths(current: nat, limit: nat)
    requires
        current < 9007199254740992,
        limit <= 0x1_0000_0000_0000,
    ensures
        is_near(current, limit) <==> 10 * current > 9 * limit,
{
    rounding::law_small_numbers_are_exact(current);
    rounding::law_small_numbers_are_exact(limit);
    let exact = limit * 8106479329266893;
    assert(exact == limit * NINE_TENTHS as nat);
    vstd::arithmetic::power2::lemma2_to64();
    vstd::arithmetic::power2::lemma2_to64_rest();
    rounding::law_shifted_numbers_are_exact(current, 53);
    let reached = current * 9007199254740992;
    assert(vstd::arithmetic::power2::pow2(53) == 9007199254740992);
    assert(rounding::nearest_double(reached) == reached);
    if 10 * current > 9 * limit {
        rounding::lemma_nearest_close(exact);
    } else {
        assert(reached <= exact);
        rounding::lemma_nearest_monotone(reached, exact);
    }
}

/// A new throttler and one that is reset have counted nothing; each setter sets its own
/// limit and nothing else.
pub proof fn law_limits_are_set(
    t: &mut BandwidthThrottler,
    a: i64,
    b: i64,
    now: u64,
    fresh: BandwidthThrottler,
)
    ensures
        call_ensures(BandwidthThrottler::new, (a, b, now), fresh) ==> fresh.max_bytes_per_second
            == a && fresh.max_bytes_per_hour == b && fresh.server_throttle == -1
            && fresh.start_time == now && fresh.total_bytes == 0 && fresh.peak_speed == 0
            && fresh.requests_served == 0 && fresh.counters.second_counter.samples().len() == 0
            && fresh.counters.minute_counter.samples().len() == 0
            && fresh.counters.hour_counter.samples().len() == 0
            && fresh.counters.second_counter.window() == 1_000_000_000
            && fresh.counters.minute_counter.window() == 60_000_000_000
            && fresh.counters.hour_counter.window() == 3_600_000_000_000,
        call_ensures(BandwidthThrottler::unlimited, (now,), fresh) ==> fresh.max_bytes_per_second
            == -1 && fresh.max_bytes_per_hour == -1 && fresh.server_throttle == -1
            && fresh.start_time == now && fresh.total_bytes == 0 && fresh.peak_speed == 0
            && fresh.requests_served == 0 && fresh.counters.second_counter.samples().len() == 0,
        call_ensures(BandwidthThrottler::set_server_throttle, (t, a), ()) ==> *final(t) == (
        BandwidthThrottler { server_throttle: a, ..*old(t) }),
        call_ensures(BandwidthThrottler::set_max_bps, (t, a), ()) ==> *final(t) == (
        BandwidthThrottler { max_bytes_per_second: a, ..*old(t) }),
        call_ensures(BandwidthThrottler::set_max_bph, (t, a), ()) ==> *final(t) == (
        BandwidthThrottler { max_bytes_per_hour: a, ..*old(t) }),
        call_ensures(BandwidthThrottler::reset, (t,), ())
            ==> final(t).counters.second_counter.samples().len() == 0
            && final(t).counters.minute_counter.samples().len() == 0
            && final(t).counters.hour_counter.samples().len() == 0 && final(t).total_bytes == 0
            && final(t).peak_speed == 0 && final(t).requests_served == 0
            && final(t).server_throttle == old(t).server_throttle
            && final(t).max_bytes_per_second == old(t).max_bytes_per_second
            && final(t).max_bytes_per_hour == old(t).max_bytes_per_hour && final(t).start_time
            == old(t).start_time,
{
}

/// A request gets its slot once the delay has passed since the last one that got it; a
/// request that comes earlier is told what is left of the delay, and changes nothing.
pub proof fn law_requests_keep_their_distance(
    limiter: &mut RequestRateLimiter,
    now: u64,
    wait: Option<u64>,
    last: u64,
    delay: u64,
    fresh: RequestRateLimiter,
    count: u64,
)
    requires
        call_ensures(RequestRateLimiter::acquire, (limiter, now), wait),
        call_ensures(RequestRateLimiter::new, (delay,), fresh),
        call_ensures(RequestRateLimiter::request_count, (&*final(limiter),), count),
    ensures
        old(limiter).last_request is None ==> wait is None,
        old(limiter).last_request == Some(last) && last <= now ==> {
            &&& wait is None <==> now - last >= old(limiter).min_delay
            &&& wait matches Some(left) ==> left == old(limiter).min_delay - (now - last)
        },
        old(limiter).last_request == Some(last) && last > now ==> {
            &&& wait is None <==> old(limiter).min_delay == 0
            &&& wait matches Some(left) ==> left == old(limiter).min_delay
        },
        wait is Some ==> *final(limiter) == *old(limiter),
        wait is None ==> final(limiter).last_request == Some(now) && final(limiter).min_delay
            == old(limiter).min_delay,
        wait is None && old(limiter).request_count < 0xffff_ffff_ffff_ffff ==> count
            == old(limiter).request_count + 1,
        fresh.min_delay == delay && fresh.last_request is None && fresh.request_count == 0,
{
}

/// A transfer can be recorded where the bytes fit every counter; and a request that has
/// waited takes its slot as one that need not.
pub proof fn law_room_is_checked(
    t: BandwidthThrottler,
    bytes: u64,
    room: bool,
    limiter: &mut RequestRateLimiter,
    now: u64,
)
    requires
        call_ensures(BandwidthThrottler::can_record, (&t, bytes), room),
        call_ensures(RequestRateLimiter::acquire_after_wait, (limiter, now), ()),
    ensures
        room <==> {
            &&& bytes_of(t.counters.second_counter.samples()) + bytes <= 0xffff_ffff_ffff_ffff
            &&& bytes_of(t.counters.minute_counter.samples()) + bytes <= 0xffff_ffff_ffff_ffff
            &&& bytes_of(t.counters.hour_counter.samples()) + bytes <= 0xffff_ffff_ffff_ffff
        },
        final(limiter).last_request == Some(now) && final(limiter).min_delay
            == old(limiter).min_delay,
        old(limiter).request_count < 0xffff_ffff_ffff_ffff ==> final(limiter).request_count
            == old(limiter).request_count + 1,
{
}

}
