//! The HTTP server's rules: flood control, integrity checks, the serving of
//! cached files, commands of the H@H server, and the parameters of the API.
//!
//! Requests are received, files read and responses sent by the caller. Times are
//! milliseconds since the epoch where nothing else is said.

use crate::api;
use crate::api::ApiError;
use crate::api::HahApiClient;
use crate::archive;
use crate::archive::ArchiveRequest;
use crate::archive::ArchiveResolution;
use crate::cache;
use crate::cache::CacheManager;
use crate::cache::CachedFile;
use crate::config;
use crate::config::Config;
use crate::digest;
use crate::gallery::DownloadRequest;
use crate::metrics;
use crate::metrics::MetricsCollector;
use crate::metrics::Ratio;
use crate::text;
use crate::throttle;
use crate::throttle::BandwidthThrottler;
use crate::web;
use dashmap::DashMap;
use std::collections::hash_map::RandomState;
use vstd::prelude::*;
use vstd::slice::slice_to_vec;
use vstd::utf8::encode_utf8;

verus! {

// ---------------------------------------------------------------------------
// Flood control
// ---------------------------------------------------------------------------

/// How long an address is blocked.
pub const BLOCK_TIME: i64 = 60_000;

/// How many connections may come close together.
pub const CONNECTION_LIMIT: i64 = 10;

/// Division that rounds towards zero.
pub open spec fn quotient_toward_zero(a: int, b: int) -> int {
    if a >= 0 {
        a / b
    } else {
        -((-a) / b)
    }
}

/// Flood control entry for rate limiting per IP.
#[derive(Debug, Clone, Copy, PartialEq, Eq, Structural)]
pub struct FloodControlEntry {
    /// Connection count (decays over time).
    pub connect_count: i64,
    /// Last connection timestamp.
    pub last_connect: i64,
    /// Block until timestamp.
    pub block_until: i64,
}

/// The connection count after a connection at `now`: it decays by one for every
/// second since the last.
pub open spec fn count_after(count: i64, last: i64, now: i64) -> i64 {
    let elapsed = quotient_toward_zero(now.wrapping_sub(last) as int, 1000) as i64;
    let rest = count.wrapping_sub(elapsed);
    (if rest < 0 {
        0i64
    } else {
        rest
    }).wrapping_add(1)
}

impl FloodControlEntry {
    /// An entry that has seen no connection.
    pub open spec fn fresh() -> FloodControlEntry {
        FloodControlEntry { connect_count: 0, last_connect: 0, block_until: 0 }
    }

    pub open spec fn blocked(&self, now: i64) -> bool {
        self.block_until > now
    }

    pub open spec fn stale(&self, now: i64) -> bool {
        self.last_connect < now - 60000
    }

    /// The entry after a connection at `now`.
    pub open spec fn after_hit(&self, now: i64) -> FloodControlEntry {
        let count = count_after(self.connect_count, self.last_connect, now);
        FloodControlEntry {
            connect_count: count,
            last_connect: now,
            block_until: if count > CONNECTION_LIMIT {
                now.wrapping_add(BLOCK_TIME)
            } else {
                self.block_until
            },
        }
    }

    /// A connection at `now` is not one too many.
    pub open spec fn allows(&self, now: i64) -> bool {
        count_after(self.connect_count, self.last_connect, now) <= CONNECTION_LIMIT
    }

    pub fn new() -> (r: Self)
        ensures
            r == FloodControlEntry::fresh(),
    {
        FloodControlEntry { connect_count: 0, last_connect: 0, block_until: 0 }
    }

    /// Check if the IP is currently blocked.
    pub fn is_blocked(&self, now: i64) -> (r: bool)
        ensures
            r == self.blocked(now),
    {
        self.block_until > now
    }

    /// Check if the entry is stale (no activity for 60 seconds).
    pub fn is_stale(&self, now: i64) -> (r: bool)
        ensures
            r == self.stale(now),
    {
        (self.last_connect as i128) < now as i128 - 60000
    }

    fn is_recent(&self, now: i64) -> (r: bool)
        ensures
            r == !self.stale(now),
    {
        !self.is_stale(now)
    }

    /// Record a connection attempt. Returns false if flood control triggered.
    pub fn hit(&mut self, now: i64) -> (r: bool)
        ensures
            *final(self) == old(self).after_hit(now),
            r == old(self).allows(now),
    {
        let elapsed: i64 = now.wrapping_sub(self.last_connect) / 1000;
        let rest: i64 = self.connect_count.wrapping_sub(elapsed);
        let decayed: i64 = (if rest < 0 {
            0
        } else {
            rest
        }).wrapping_add(1);
        self.connect_count = decayed;
        self.last_connect = now;
        if decayed > CONNECTION_LIMIT {
            self.block_until = now.wrapping_add(BLOCK_TIME);
            return false;
        }
        true
    }
}

/// The entries that the table holds, by their addresses.
pub uninterp spec fn flood_entries(table: DashMap<String, FloodControlEntry, RandomState>) -> Map<
    Seq<char>,
    FloodControlEntry,
>;

/// `dashmap::DashMap::new` makes an empty table.
#[verifier::external_body]
fn entries_new() -> (res: DashMap<String, FloodControlEntry, RandomState>)
    ensures
        (flood_entries(res) == Map::<Seq<char>, FloodControlEntry>::empty()),
{
    DashMap::new()
}

/// `dashmap::DashMap::get` finds the entry for the address; it is handed out as a
/// copy.
#[verifier::external_body]
fn entries_get(table: &DashMap<String, FloodControlEntry, RandomState>, ip: &str) -> (res: Option<
    FloodControlEntry,
>)
    ensures
        (match res {
            Some(entry) => flood_entries(*table).contains_key(ip@) && entry == flood_entries(
                *table,
            )[ip@],
            None => !flood_entries(*table).contains_key(ip@),
        }),
{
    table.get(ip).map(|entry| *entry.value())
}

/// `dashmap::DashMap::insert` sets the entry for the address.
#[verifier::external_body]
fn entries_insert(
    table: &mut DashMap<String, FloodControlEntry, RandomState>,
    ip: String,
    entry: FloodControlEntry,
)
    ensures
        flood_entries(*final(table)) == flood_entries(*old(table)).insert(ip@, entry),
{
    table.insert(ip, entry);
}

/// `dashmap::DashMap::retain` keeps just the entries that the closure picks: those
/// that are not stale.
#[verifier::external_body]
fn entries_keep_fresh(table: &mut DashMap<String, FloodControlEntry, RandomState>, now: i64)
    ensures
        forall|ip: Seq<char>| #[trigger]
            flood_entries(*final(table)).contains_key(ip) <==> flood_entries(
                *old(table),
            ).contains_key(ip) && !flood_entries(*old(table))[ip].stale(now),
        forall|ip: Seq<char>|
            flood_entries(*final(table)).contains_key(ip) ==> #[trigger] flood_entries(
                *final(table),
            )[ip] == flood_entries(*old(table))[ip],
{
    table.retain(|_, entry| entry.is_recent(now));
}

/// Flood control table for rate limiting.
pub struct FloodControl {
    table: DashMap<String, FloodControlEntry, RandomState>,
}

impl View for FloodControl {
    type V = Map<Seq<char>, FloodControlEntry>;

    closed spec fn view(&self) -> Map<Seq<char>, FloodControlEntry> {
        flood_entries(self.table)
    }
}

/// The entry that stands for an address.
pub open spec fn entry_of(
    entries: Map<Seq<char>, FloodControlEntry>,
    ip: Seq<char>,
) -> FloodControlEntry {
    if entries.contains_key(ip) {
        entries[ip]
    } else {
        FloodControlEntry::fresh()
    }
}

/// The table after a connection from `ip`, and whether it is allowed. Local
/// addresses are always, and leave no trace; blocked ones are not, and are not
/// counted.
pub open spec fn connection(
    entries: Map<Seq<char>, FloodControlEntry>,
    ip: Seq<char>,
    now: i64,
) -> (Map<Seq<char>, FloodControlEntry>, bool) {
    let entry = entry_of(entries, ip);
    if web::is_local_address(ip) {
        (entries, true)
    } else if entry.blocked(now) {
        (entries.insert(ip, entry), false)
    } else {
        (entries.insert(ip, entry.after_hit(now)), entry.allows(now))
    }
}

/// The entries are those of `before` that are not stale.
pub open spec fn without_stale(
    entries: Map<Seq<char>, FloodControlEntry>,
    before: Map<Seq<char>, FloodControlEntry>,
    now: i64,
) -> bool {
    &&& forall|ip: Seq<char>| #[trigger]
        entries.contains_key(ip) <==> before.contains_key(ip) && !before[ip].stale(now)
    &&& forall|ip: Seq<char>| entries.contains_key(ip) ==> #[trigger] entries[ip] == before[ip]
}

impl FloodControl {
    pub fn new() -> (r: Self)
        ensures
            r@ == Map::<Seq<char>, FloodControlEntry>::empty(),
    {
        FloodControl { table: entries_new() }
    }

    /// Check if the address is from a local network.
    pub fn is_local_network(&self, addr: &str) -> (r: bool)
        ensures
            r == web::is_local_address(addr@),
            r == web::regex_matches(web::LOCAL_NETWORK@, addr@),
    {
        web::regex_is_match(web::LOCAL_NETWORK, addr)
    }

    /// Check if an IP should be allowed to connect. Returns false if blocked.
    pub fn check_and_record(&mut self, ip: &str, now: i64) -> (r: bool)
        ensures
            (final(self)@, r) == connection(old(self)@, ip@, now),
    {
        if self.is_local_network(ip) {
            return true;
        }
        let mut entry = match entries_get(&self.table, ip) {
            Some(entry) => entry,
            None => FloodControlEntry::new(),
        };
        if entry.is_blocked(now) {
            entries_insert(&mut self.table, ip.to_string(), entry);
            return false;
        }
        let allowed = entry.hit(now);
        entries_insert(&mut self.table, ip.to_string(), entry);
        allowed
    }

    /// Prune stale entries from the table.
    pub fn prune_stale(&mut self, now: i64)
        ensures
            without_stale(final(self)@, old(self)@, now),
    {
        entries_keep_fresh(&mut self.table, now);
    }
}

/// A connection from the local network is always allowed and leaves no trace.
pub proof fn law_local_network_is_not_limited(
    entries: Map<Seq<char>, FloodControlEntry>,
    ip: Seq<char>,
    now: i64,
)
    requires
        web::is_local_address(ip),
    ensures
        connection(entries, ip, now) == (entries, true),
{
}

/// What one address does is nothing to another.
pub proof fn law_addresses_are_limited_apart(
    entries: Map<Seq<char>, FloodControlEntry>,
    ip: Seq<char>,
    other: Seq<char>,
    now: i64,
    later: i64,
)
    requires
        ip != other,
    ensures
        connection(connection(entries, ip, now).0, other, later).1 == connection(
            entries,
            other,
            later,
        ).1,
{
}

/// One connection too many blocks an address for sixty seconds.
pub proof fn law_flooding_blocks_for_a_minute(
    entries: Map<Seq<char>, FloodControlEntry>,
    ip: Seq<char>,
    now: i64,
    later: i64,
)
    requires
        now <= i64::MAX - BLOCK_TIME,
        !entry_of(entries, ip).blocked(now),
        !connection(entries, ip, now).1,
        now <= later < now + BLOCK_TIME,
    ensures
        !connection(connection(entries, ip, now).0, ip, later).1,
{
}

/// An entry after connections at the given times.
pub open spec fn after_hits(entry: FloodControlEntry, times: Seq<i64>) -> FloodControlEntry
    decreases times.len(),
{
    if times.len() == 0 {
        entry
    } else {
        after_hits(entry, times.drop_last()).after_hit(times.last())
    }
}

/// The times follow each other within less than a second.
pub open spec fn rapid(times: Seq<i64>) -> bool {
    &&& forall|i: int| 0 <= i < times.len() ==> (#[trigger] times[i]) >= 0
    &&& forall|i: int|
        #![trigger times[i]]
        0 < i < times.len() ==> times[i - 1] <= times[i] < times[i - 1] + 1000
}

proof fn lemma_rapid_count(times: Seq<i64>)
    requires
        rapid(times),
        0 < times.len() < i64::MAX,
    ensures
        after_hits(FloodControlEntry::fresh(), times).connect_count == times.len(),
        after_hits(FloodControlEntry::fresh(), times).last_connect == times.last(),
    decreases times.len(),
{
    let before = times.drop_last();
    let entry = after_hits(FloodControlEntry::fresh(), before);
    assert(times.last() == times[times.len() - 1]);
    if before.len() > 0 {
        assert forall|i: int| 0 <= i < before.len() implies (#[trigger] before[i]) >= 0 by {
            assert(before[i] == times[i]);
        }
        assert forall|i: int|
            #![trigger before[i]]
            0 < i < before.len() implies before[i - 1] <= before[i] < before[i - 1] + 1000 by {
            assert(before[i] == times[i]);
            assert(before[i - 1] == times[i - 1]);
        }
        lemma_rapid_count(before);
        assert(before.last() == times[times.len() - 2]);
    }
}

/// Of connections that follow each other within less than a second the first ten
/// are allowed, and the eleventh is not.
pub proof fn law_eleventh_rapid_connection_is_refused(times: Seq<i64>, next: i64)
    requires
        rapid(times.push(next)),
        times.len() <= 10,
    ensures
        after_hits(FloodControlEntry::fresh(), times).allows(next) <==> times.len() < 10,
{
    let all = times.push(next);
    if times.len() > 0 {
        assert forall|i: int| 0 <= i < times.len() implies (#[trigger] times[i]) >= 0 by {
            assert(times[i] == all[i]);
        }
        assert forall|i: int|
            #![trigger times[i]]
            0 < i < times.len() implies times[i - 1] <= times[i] < times[i - 1] + 1000 by {
            assert(times[i] == all[i]);
            assert(times[i - 1] == all[i - 1]);
        }
        lemma_rapid_count(times);
        assert(all[times.len() as int] == next);
        assert(times.last() == all[times.len() - 1]);
    } else {
        assert(all[0] == next);
    }
}

/// Who connects at most once a second is never refused.
pub proof fn law_one_connection_a_second_is_allowed(entry: FloodControlEntry, now: i64)
    requires
        0 <= entry.connect_count <= CONNECTION_LIMIT,
        0 <= entry.last_connect,
        entry.last_connect + 1000 <= now,
    ensures
        entry.allows(now),
        0 <= entry.after_hit(now).connect_count <= CONNECTION_LIMIT,
        entry.after_hit(now).block_until == entry.block_until,
{
}

/// What holds of every entry whose clock has not gone backwards: the count is at
/// most one too many, and then the entry is blocked for a minute from there, and never
/// for longer than a minute from the last connection.
pub open spec fn orderly(entry: FloodControlEntry) -> bool {
    &&& 0 <= entry.connect_count <= CONNECTION_LIMIT + 1
    &&& 0 <= entry.last_connect
    &&& entry.connect_count > CONNECTION_LIMIT ==> entry.block_until == entry.last_connect
        + BLOCK_TIME
    &&& entry.block_until <= entry.last_connect + BLOCK_TIME
}

/// Every connection keeps the entries orderly, and a fresh entry is.
pub proof fn law_entries_stay_orderly(
    entries: Map<Seq<char>, FloodControlEntry>,
    ip: Seq<char>,
    now: i64,
)
    requires
        forall|other: Seq<char>| #[trigger]
            entries.contains_key(other) ==> orderly(entries[other]),
        0 <= entry_of(entries, ip).last_connect <= now <= i64::MAX - BLOCK_TIME,
    ensures
        orderly(FloodControlEntry::fresh()),
        forall|other: Seq<char>| #[trigger]
            connection(entries, ip, now).0.contains_key(other) ==> orderly(
                connection(entries, ip, now).0[other],
            ),
{
    assert(orderly(entry_of(entries, ip)));
}

/// The block ends: a minute after the connection that was one too many the address
/// is allowed again.
pub proof fn law_block_ends_after_a_minute(
    entries: Map<Seq<char>, FloodControlEntry>,
    ip: Seq<char>,
    now: i64,
)
    requires
        orderly(entry_of(entries, ip)),
        entry_of(entries, ip).connect_count > CONNECTION_LIMIT,
        entry_of(entries, ip).last_connect + BLOCK_TIME <= now,
    ensures
        connection(entries, ip, now).1,
{
}

/// The answers to connections from these addresses at these times, one after the other.
pub open spec fn answers(
    entries: Map<Seq<char>, FloodControlEntry>,
    visits: Seq<(Seq<char>, i64)>,
) -> Seq<bool>
    decreases visits.len(),
{
    if visits.len() == 0 {
        Seq::empty()
    } else {
        let (after, allowed) = connection(entries, visits.first().0, visits.first().1);
        seq![allowed] + answers(after, visits.drop_first())
    }
}

/// The visits come one after the other, none before `now`.
pub open spec fn from_now_on(visits: Seq<(Seq<char>, i64)>, now: i64) -> bool
    decreases visits.len(),
{
    visits.len() > 0 ==> now <= visits.first().1 && from_now_on(
        visits.drop_first(),
        visits.first().1,
    )
}

/// Nothing of the entry counts any more: its connections have decayed, and it is not
/// blocked.
spec fn idle(entry: FloodControlEntry, now: i64) -> bool {
    &&& 0 <= entry.last_connect <= now
    &&& 0 <= entry.connect_count <= (now - entry.last_connect) / 1000
    &&& !entry.blocked(now)
}

/// From `now` on the two entries answer alike.
spec fn alike(a: FloodControlEntry, b: FloodControlEntry, now: i64) -> bool {
    ||| a == b
    ||| idle(a, now) && idle(b, now)
    ||| {
        &&& a.connect_count == b.connect_count
        &&& a.last_connect == b.last_connect
        &&& !a.blocked(now)
        &&& !b.blocked(now)
    }
}

proof fn lemma_idle_stays(entry: FloodControlEntry, now: i64, later: i64)
    requires
        idle(entry, now),
        now <= later,
    ensures
        idle(entry, later),
        entry.allows(later),
        entry.after_hit(later) == (FloodControlEntry {
            connect_count: 1,
            last_connect: later,
            block_until: entry.block_until,
        }),
{
    assert((now - entry.last_connect) / 1000 <= (later - entry.last_connect) / 1000);
}

proof fn lemma_alike_connect(a: FloodControlEntry, b: FloodControlEntry, now: i64, later: i64)
    requires
        alike(a, b, now),
        now <= later,
    ensures
        alike(a, b, later),
        a.blocked(later) == b.blocked(later),
        !a.blocked(later) ==> a.allows(later) == b.allows(later) && alike(
            a.after_hit(later),
            b.after_hit(later),
            later,
        ),
{
    if idle(a, now) && idle(b, now) {
        lemma_idle_stays(a, now, later);
        lemma_idle_stays(b, now, later);
    }
}

proof fn lemma_alike_answers(
    a: Map<Seq<char>, FloodControlEntry>,
    b: Map<Seq<char>, FloodControlEntry>,
    visits: Seq<(Seq<char>, i64)>,
    now: i64,
)
    requires
        forall|ip: Seq<char>| alike(#[trigger] entry_of(a, ip), entry_of(b, ip), now),
        from_now_on(visits, now),
    ensures
        answers(a, visits) == answers(b, visits),
    decreases visits.len(),
{
    if visits.len() > 0 {
        let (ip, later) = visits.first();
        let (a1, allowed) = connection(a, ip, later);
        let (b1, _) = connection(b, ip, later);
        lemma_alike_connect(entry_of(a, ip), entry_of(b, ip), now, later);
        assert forall|other: Seq<char>| alike(
            #[trigger] entry_of(a1, other),
            entry_of(b1, other),
            later,
        ) by {
            lemma_alike_connect(entry_of(a, other), entry_of(b, other), now, later);
            if other != ip {
                assert(entry_of(a1, other) == entry_of(a, other));
                assert(entry_of(b1, other) == entry_of(b, other));
            }
        }
        lemma_alike_answers(a1, b1, visits.drop_first(), later);
    }
}

/// Pruning is not noticed: it takes no address out that is blocked, and whoever connects
/// from then on, and however often, is answered as without it.
pub proof fn law_pruning_changes_no_answer(
    before: Map<Seq<char>, FloodControlEntry>,
    after: Map<Seq<char>, FloodControlEntry>,
    now: i64,
    visits: Seq<(Seq<char>, i64)>,
)
    requires
        forall|ip: Seq<char>| #[trigger]
            before.contains_key(ip) ==> orderly(before[ip]) && before[ip].last_connect <= now,
        without_stale(after, before, now),
        from_now_on(visits, now),
    ensures
        forall|ip: Seq<char>| #[trigger]
            before.contains_key(ip) && before[ip].blocked(now) ==> after.contains_key(ip)
                && after[ip] == before[ip],
        answers(after, visits) == answers(before, visits),
{
    assert forall|ip: Seq<char>| #[trigger]
        before.contains_key(ip) && before[ip].blocked(now) implies after.contains_key(ip)
        && after[ip] == before[ip] by {
        assert(!before[ip].stale(now));
        assert(after.contains_key(ip));
    }
    assert forall|ip: Seq<char>| alike(
        #[trigger] entry_of(after, ip),
        entry_of(before, ip),
        now,
    ) by {
        assert(after.contains_key(ip) <==> before.contains_key(ip) && !before[ip].stale(now));
        if before.contains_key(ip) && before[ip].stale(now) {
            assert(orderly(before[ip]));
            assert(idle(before[ip], now));
            assert(idle(FloodControlEntry::fresh(), now));
        }
    }
    lemma_alike_answers(after, before, visits, now);
}

// ---------------------------------------------------------------------------
// Integrity checks
// ---------------------------------------------------------------------------

/// The shortest time between two verifications.
pub const VERIFICATION_INTERVAL: i64 = 2000;

/// How long a verified file is not verified again: a week.
pub const VERIFICATION_PERIOD: i64 = 604_800_000;

/// The times of verification that the table holds, by the hashes of the files.
pub uninterp spec fn verification_times(table: DashMap<String, i64, RandomState>) -> Map<
    Seq<char>,
    i64,
>;

/// `dashmap::DashMap::new` makes an empty table.
#[verifier::external_body]
fn times_new() -> (res: DashMap<String, i64, RandomState>)
    ensures
        (verification_times(res) == Map::<Seq<char>, i64>::empty()),
{
    DashMap::new()
}

/// `dashmap::DashMap::get` finds the time for the hash; it is handed out as a copy.
#[verifier::external_body]
fn times_get(table: &DashMap<String, i64, RandomState>, hash: &str) -> (res: Option<i64>)
    ensures
        (match res {
            Some(time) => verification_times(*table).contains_key(hash@) && time
                == verification_times(*table)[hash@],
            None => !verification_times(*table).contains_key(hash@),
        }),
{
    table.get(hash).map(|time| *time.value())
}

/// `dashmap::DashMap::insert` sets the time for the hash.
#[verifier::external_body]
fn times_insert(table: &mut DashMap<String, i64, RandomState>, hash: String, time: i64)
    ensures
        verification_times(*final(table)) == verification_times(*old(table)).insert(hash@, time),
{
    table.insert(hash, time);
}

/// When the files that have been verified were.
pub struct VerifiedFiles {
    table: DashMap<String, i64, RandomState>,
}

impl View for VerifiedFiles {
    type V = Map<Seq<char>, i64>;

    closed spec fn view(&self) -> Map<Seq<char>, i64> {
        verification_times(self.table)
    }
}

/// File integrity verification tracker.
pub struct FileVerificationTracker {
    /// Last time any file was verified.
    pub last_verification: i64,
    /// Last verification time of each file.
    pub verified_files: VerifiedFiles,
}

impl FileVerificationTracker {
    /// Enough time has passed since the last verification.
    pub open spec fn is_due(&self, now: i64) -> bool {
        now - self.last_verification >= VERIFICATION_INTERVAL
    }

    /// The file has not been verified in the last week.
    pub open spec fn wants(&self, hash: Seq<char>, now: i64) -> bool {
        self.verified_files@.contains_key(hash) ==> self.verified_files@[hash] < now
            - VERIFICATION_PERIOD
    }

    pub fn new() -> (r: Self)
        ensures
            r.last_verification == 0,
            r.verified_files@ == Map::<Seq<char>, i64>::empty(),
    {
        FileVerificationTracker {
            last_verification: 0,
            verified_files: VerifiedFiles { table: times_new() },
        }
    }

    /// Claim a verification now, if none was made in the last two seconds.
    pub fn can_verify_now(&mut self, now: i64) -> (r: bool)
        ensures
            r == old(self).is_due(now),
            *final(self) == (if r {
                FileVerificationTracker { last_verification: now, ..*old(self) }
            } else {
                *old(self)
            }),
    {
        if now as i128 - (self.last_verification as i128) < VERIFICATION_INTERVAL as i128 {
            return false;
        }
        self.last_verification = now;
        true
    }

    /// Check if a file should be verified (not verified in the last week).
    pub fn should_verify(&self, hash: &str, now: i64) -> (r: bool)
        ensures
            r == self.wants(hash@, now),
    {
        match times_get(&self.verified_files.table, hash) {
            Some(last) => (last as i128) < now as i128 - VERIFICATION_PERIOD as i128,
            None => true,
        }
    }

    /// Record that a file was verified.
    pub fn record_verification(&mut self, hash: &str, now: i64)
        ensures
            final(self).last_verification == old(self).last_verification,
            final(self).verified_files@ == old(self).verified_files@.insert(hash@, now),
    {
        times_insert(&mut self.verified_files.table, hash.to_string(), now);
    }
}

/// A verified file is not verified again within a week, and no file at all within
/// two seconds of a verification.
pub proof fn law_verifications_are_rare(
    tracker: FileVerificationTracker,
    hash: Seq<char>,
    now: i64,
    later: i64,
)
    requires
        tracker.verified_files@.contains_key(hash),
        tracker.verified_files@[hash] == now,
        tracker.last_verification == now,
        now <= later,
    ensures
        later <= now + VERIFICATION_PERIOD ==> !tracker.wants(hash, later),
        later < now + VERIFICATION_INTERVAL ==> !tracker.is_due(later),
{
}

// ---------------------------------------------------------------------------
// Requests and responses
// ---------------------------------------------------------------------------

/// Query parameters of a file request.
#[derive(Debug, Clone)]
pub struct FileRequest {
    pub keystamp: Option<String>,
    pub fileindex: Option<String>,
    pub xres: Option<String>,
}

/// An answer of the API: data, or an error.
#[derive(Debug)]
pub struct ApiResponse<T> {
    pub success: bool,
    pub data: Option<T>,
    pub error: Option<String>,
}

impl<T> ApiResponse<T> {
    pub fn success(data: T) -> (r: Self)
        ensures
            r.success,
            r.data == Some(data),
            r.error is None,
    {
        ApiResponse { success: true, data: Some(data), error: None }
    }

    pub fn error(message: &str) -> (r: Self)
        ensures
            !r.success,
            r.data is None,
            web::optional_text(r.error) == Some(message@),
    {
        ApiResponse { success: false, data: None, error: Some(message.to_string()) }
    }
}

/// Status of a gallery download.
#[derive(Debug, Clone)]
pub struct GalleryStatusResponse {
    pub gallery_id: String,
    pub status: String,
    pub downloaded: i64,
    pub total: i64,
}

/// Parameters of a gallery download.
#[derive(Debug, Clone)]
pub struct GalleryDownloadParams {
    pub url: Option<String>,
    pub gallery_id: Option<String>,
    pub gallery_token: Option<String>,
    pub start_page: Option<u32>,
    pub end_page: Option<u32>,
}

/// Parameters of an archive download.
#[derive(Debug, Clone)]
pub struct ArchiveDownloadParams {
    pub url: Option<String>,
    pub gallery_id: Option<String>,
    pub gallery_token: Option<String>,
    pub resolution: Option<String>,
}

/// A plain response: an HTTP status and a text.
pub struct Reply {
    pub status: u16,
    pub body: &'static str,
}

impl Reply {
    pub open spec fn says(&self, status: u16, body: Seq<char>) -> bool {
        self.status == status && self.body@ == body
    }
}

// ---------------------------------------------------------------------------
// Serving files
// ---------------------------------------------------------------------------

/// The keystamp of a request: the last one that its path gives or else that of the
/// query.
pub open spec fn request_keystamp(additional: Seq<char>, query: Option<Seq<char>>) -> Option<
    Seq<char>,
> {
    match api::param(text::split(additional, ';'), "keystamp"@) {
        Some(v) => Some(v),
        None => query,
    }
}

/// The hash of a file: what stands before the first underscore of its name.
pub open spec fn file_hash(file_id: Seq<char>) -> Seq<char> {
    text::split(file_id, '_')[0]
}

/// The hash of a file, from its name.
pub fn hash_of_file(file_id: &str) -> (hash: String)
    ensures
        hash@ == file_hash(file_id@),
{
    let parts = text::split_text(file_id, '_');
    proof {
        assert(text::texts(parts@)[0] == parts@[0]@);
    }
    parts[0].clone()
}

/// What a keystamp is worth.
#[derive(Debug, Clone, Copy, PartialEq, Eq, Structural)]
pub enum Keystamp {
    /// None was given, or a good one.
    Accepted,
    /// Its key is not the one, or its time not near.
    Invalid,
    /// It has no time and key.
    Malformed,
}

/// What a `time-key` keystamp is worth for a file. A time that is no number
/// counts as 0.
pub open spec fn keystamp_worth(
    keystamp: Option<Seq<char>>,
    file_id: Seq<char>,
    server_time: int,
    client_key: Seq<char>,
) -> Keystamp {
    match keystamp {
        None => Keystamp::Accepted,
        Some(stamp) => match text::split_once(stamp, '-') {
            None => Keystamp::Malformed,
            Some((time, key)) => if api::valid_request(
                file_id,
                key,
                api::number_param(Some(time), i64::MIN as int, i64::MAX as int, 0, 0),
                server_time,
                client_key,
            ) {
                Keystamp::Accepted
            } else {
                Keystamp::Invalid
            },
        },
    }
}

/// How to go on with a file request.
pub enum ServeStep {
    /// Answer.
    Respond(Reply),
    /// Read the cached file.
    Read(CachedFile),
    /// The file is not cached: ask the server where it can be had (proxy mode), and
    /// go on with `proxy_answered`.
    AskProxy,
    /// Fetch the file from this address, and go on with `serve_proxied`.
    Fetch(String),
}

fn keystamp_of(additional: &str, params: &FileRequest) -> (r: Option<String>)
    ensures
        web::optional_text(r) == request_keystamp(additional@, web::optional_text(params.keystamp)),
{
    let pairs = text::split_text(additional, ';');
    match api::param_of(&pairs, "keystamp") {
        Some(v) => Some(v),
        None => match &params.keystamp {
            Some(v) => Some(v.clone()),
            None => None,
        },
    }
}

/// Check a keystamp.
pub fn check_keystamp(
    client: &HahApiClient,
    keystamp: &Option<String>,
    file_id: &str,
    local_time: i64,
) -> (r: Keystamp)
    requires
        client.tells_time(local_time),
    ensures
        r == keystamp_worth(
            web::optional_text(*keystamp),
            file_id@,
            client.server_time(local_time),
            client.config.client_key@,
        ),
{
    match keystamp {
        None => Keystamp::Accepted,
        Some(stamp) => match text::split_text_once(stamp.as_str(), '-') {
            None => Keystamp::Malformed,
            Some((time, key)) => {
                let timestamp: i64 = match text::parse_signed(time.as_str(), i64::MIN, i64::MAX) {
                    Some(t) => t,
                    None => 0,
                };
                if client.verify_request(file_id, key.as_str(), timestamp, local_time) {
                    Keystamp::Accepted
                } else {
                    Keystamp::Invalid
                }
            },
        },
    }
}

/// Why a request is refused before the cache is asked.
pub open spec fn refusal(hash: Seq<char>, keystamp: Keystamp) -> Option<(u16, Seq<char>)> {
    if hash.len() == 0 {
        Some((400, "Invalid file ID"@))
    } else {
        match keystamp {
            Keystamp::Invalid => Some((403, "Invalid request"@)),
            Keystamp::Malformed => Some((403, "Invalid keystamp format"@)),
            Keystamp::Accepted => None,
        }
    }
}

/// A file is asked for: count the request, check it, and look for the file in the
/// cache. `local_time` is in seconds.
pub fn serve_file_internal(
    metrics: &mut MetricsCollector,
    cache: &mut CacheManager,
    client: &HahApiClient,
    file_id: &str,
    additional: &str,
    params: &FileRequest,
    local_time: i64,
) -> (step: ServeStep)
    requires
        client.tells_time(local_time),
    ensures
        final(cache).config == old(cache).config,
        final(cache).total_size == old(cache).total_size,
        ({
            let hash = file_hash(file_id@);
            let keystamp = keystamp_worth(
                request_keystamp(additional@, web::optional_text(params.keystamp)),
                file_id@,
                client.server_time(local_time),
                client.config.client_key@,
            );
            let entered = old(metrics).requested().connected();
            match refusal(hash, keystamp) {
                Some((status, body)) => {
                    &&& step is Respond
                    &&& step->Respond_0.says(status, body)
                    &&& *final(metrics) == entered.disconnected().failed()
                    &&& *final(cache) == *old(cache)
                },
                None => if old(cache).files().contains_key(hash) {
                    let before = old(cache).files()[hash];
                    let file = CachedFile {
                        last_accessed: local_time,
                        hit_count: before.hit_count.wrapping_add(1),
                        ..before
                    };
                    &&& step == ServeStep::Read(file)
                    &&& *final(metrics) == entered.hit()
                    &&& final(cache).files() == old(cache).files().insert(hash, file)
                    &&& final(cache).stats == (cache::CacheStats {
                        hits: old(cache).stats.hits.wrapping_add(1),
                        bytes_served: old(cache).stats.bytes_served.wrapping_add(before.size),
                        ..old(cache).stats
                    })
                } else {
                    &&& *final(metrics) == (if old(cache).config.proxy_mode {
                        entered.missed().disconnected()
                    } else {
                        entered.missed().disconnected().failed()
                    })
                    &&& if old(cache).config.proxy_mode {
                        step is AskProxy
                    } else {
                        step is Respond && step->Respond_0.says(404, "File not in cache"@)
                    }
                    &&& final(cache).files() == old(cache).files()
                    &&& final(cache).stats == (cache::CacheStats {
                        misses: old(cache).stats.misses.wrapping_add(1),
                        ..old(cache).stats
                    })
                },
            }
        }),
{
    metrics.record_request();
    metrics.record_connection();
    let keystamp = keystamp_of(additional, params);
    let name = hash_of_file(file_id);
    let hash = name.as_str();
    if hash.is_empty() {
        metrics.record_connection_closed();
        metrics.record_failed_serve();
        return ServeStep::Respond(Reply { status: 400, body: "Invalid file ID" });
    }
    match check_keystamp(client, &keystamp, file_id, local_time) {
        Keystamp::Invalid => {
            metrics.record_connection_closed();
            metrics.record_failed_serve();
            return ServeStep::Respond(Reply { status: 403, body: "Invalid request" });
        },
        Keystamp::Malformed => {
            metrics.record_connection_closed();
            metrics.record_failed_serve();
            return ServeStep::Respond(Reply { status: 403, body: "Invalid keystamp format" });
        },
        Keystamp::Accepted => {},
    }
    match cache.get_file(hash, local_time) {
        Ok(Some(file)) => {
            metrics.record_cache_hit();
            ServeStep::Read(file)
        },
        _ => {
            metrics.record_cache_miss();
            metrics.record_connection_closed();
            if cache.config.proxy_mode {
                return ServeStep::AskProxy;
            }
            ServeStep::Respond(serve_missing(metrics))
        },
    }
}

/// A file that is not cached is not served.
pub fn serve_missing(metrics: &mut MetricsCollector) -> (r: Reply)
    ensures
        *final(metrics) == old(metrics).failed(),
        r.says(404, "File not in cache"@),
{
    metrics.record_failed_serve();
    Reply { status: 404, body: "File not in cache" }
}

/// The server has answered where a file can be had that is not cached. Where it names
/// no address, or did not answer, the file is missing.
pub fn proxy_answered(
    metrics: &mut MetricsCollector,
    answer: Result<Option<String>, ApiError>,
) -> (step: ServeStep)
    ensures
        match answer {
            Ok(Some(url)) => {
                &&& step == ServeStep::Fetch(url)
                &&& *final(metrics) == *old(metrics)
            },
            _ => {
                &&& step is Respond
                &&& step->Respond_0.says(404, "File not in cache"@)
                &&& *final(metrics) == old(metrics).failed()
            },
        },
{
    match answer {
        Ok(Some(url)) => ServeStep::Fetch(url),
        _ => ServeStep::Respond(serve_missing(metrics)),
    }
}

/// A response with a body of bytes.
pub struct FileReply {
    pub status: u16,
    pub body: Vec<u8>,
}

/// A file that is not cached has been fetched from the address that the server named
/// (`None` where it named none, or the file could not be had there): it goes out as it
/// came.
pub fn serve_proxied(
    metrics: &mut MetricsCollector,
    url: Option<String>,
    body: Option<&[u8]>,
) -> (r: FileReply)
    ensures
        url is Some && body is Some ==> {
            &&& r.status == 200
            &&& r.body@ == body->0@
            &&& *final(metrics) == old(metrics).served(body->0@.len() as u64)
        },
        url is None || body is None ==> {
            &&& r.status == 404
            &&& r.body@ == encode_utf8("File not in cache"@)
            &&& *final(metrics) == old(metrics).failed()
        },
{
    if url.is_some() {
        if let Some(bytes) = body {
            metrics.record_successful_serve(bytes.len() as u64);
            return FileReply { status: 200, body: slice_to_vec(bytes) };
        }
    }
    let missing = serve_missing(metrics);
    FileReply { status: missing.status, body: slice_to_vec(missing.body.as_bytes()) }
}

/// What is wrong with the data of a cached file, where they were read and their
/// hash is checked or not.
pub open spec fn data_fault(
    data: Option<Seq<u8>>,
    size: u64,
    hash: Seq<char>,
    checked: bool,
) -> Option<(u16, Seq<char>)> {
    match data {
        None => Some((500, "File read error"@)),
        Some(bytes) => if bytes.len() != size || (checked && digest::sha1_hex(bytes) != hash) {
            Some((404, "File corrupted"@))
        } else {
            None
        },
    }
}

pub open spec fn slice_view(o: Option<&[u8]>) -> Option<Seq<u8>> {
    match o {
        Some(s) => Some(s@),
        None => None,
    }
}

/// A cached file has been read (`None` where it could not be): check its size and,
/// now and then, its hash. The response, where it is not fit to be served.
pub fn check_data(
    metrics: &mut MetricsCollector,
    verifier: &mut FileVerificationTracker,
    hash: &str,
    file: &CachedFile,
    data: Option<&[u8]>,
    now: i64,
) -> (r: Option<Reply>)
    ensures
        ({
            let sized = data is Some && data->0@.len() == file.size;
            let checked = sized && old(verifier).wants(hash@, now) && old(verifier).is_due(now);
            let fault = data_fault(slice_view(data), file.size, hash@, checked);
            &&& match fault {
                Some((status, body)) => {
                    &&& r is Some
                    &&& r->0.says(status, body)
                    &&& *final(metrics) == old(metrics).disconnected().failed().errored()
                },
                None => r is None && *final(metrics) == *old(metrics),
            }
            &&& final(verifier).last_verification == (if checked {
                now
            } else {
                old(verifier).last_verification
            })
            &&& final(verifier).verified_files@ == (if checked && fault is None {
                old(verifier).verified_files@.insert(hash@, now)
            } else {
                old(verifier).verified_files@
            })
        }),
{
    let bytes = match data {
        Some(bytes) => bytes,
        None => {
            return Some(respond_fault(metrics, 500, "File read error"));
        },
    };
    if bytes.len() as u64 != file.size {
        return Some(respond_fault(metrics, 404, "File corrupted"));
    }
    if verifier.should_verify(hash, now) && verifier.can_verify_now(now) {
        let computed = digest::sha1_hex_of(bytes);
        if !text::same(computed.as_str(), hash) {
            return Some(respond_fault(metrics, 404, "File corrupted"));
        }
        verifier.record_verification(hash, now);
    }
    None
}

fn respond_fault(metrics: &mut MetricsCollector, status: u16, body: &'static str) -> (r: Reply)
    ensures
        *final(metrics) == old(metrics).disconnected().failed().errored(),
        r.says(status, body@),
{
    metrics.record_connection_closed();
    metrics.record_failed_serve();
    metrics.record_error();
    Reply { status, body }
}

/// A file goes out: count it, and the milliseconds it took. The content type.
pub fn serve_data(metrics: &mut MetricsCollector, bytes: u64, elapsed_ms: u64, file_type: &str)
    -> (content_type: &'static str)
    ensures
        *final(metrics) == old(metrics).served(bytes).responded(elapsed_ms).disconnected(),
        content_type@ == content_type_of(file_type@),
{
    metrics.record_successful_serve(bytes);
    metrics.record_response_time(elapsed_ms);
    metrics.record_connection_closed();
    content_type_for(file_type)
}

/// The content type of a file type.
pub open spec fn content_type_of(file_type: Seq<char>) -> Seq<char> {
    if file_type == "jpg"@ || file_type == "jpeg"@ {
        "image/jpeg"@
    } else if file_type == "png"@ {
        "image/png"@
    } else if file_type == "gif"@ {
        "image/gif"@
    } else if file_type == "webp"@ {
        "image/webp"@
    } else {
        "application/octet-stream"@
    }
}

pub fn content_type_for(file_type: &str) -> (r: &'static str)
    ensures
        r@ == content_type_of(file_type@),
{
    if text::same(file_type, "jpg") || text::same(file_type, "jpeg") {
        "image/jpeg"
    } else if text::same(file_type, "png") {
        "image/png"
    } else if text::same(file_type, "gif") {
        "image/gif"
    } else if text::same(file_type, "webp") {
        "image/webp"
    } else {
        "application/octet-stream"
    }
}

/// How the metrics of a file request that has ended differ from those before it: one
/// request and one connection more, which is closed, and one serve, successful or not,
/// with the bytes that went out; and the hits, misses and errors.
pub open spec fn counts_once(
    before: MetricsCollector,
    after: MetricsCollector,
    sent: Option<u64>,
    hits: u64,
    misses: u64,
    errors: u64,
) -> bool {
    &&& after.total_requests == before.total_requests.wrapping_add(1)
    &&& after.connections_handled == before.connections_handled.wrapping_add(1)
    &&& after.current_connections == before.current_connections
    &&& after.successful_serves == before.successful_serves.wrapping_add(
        if sent is Some {
            1
        } else {
            0
        },
    )
    &&& after.failed_serves == before.failed_serves.wrapping_add(
        if sent is Some {
            0
        } else {
            1
        },
    )
    &&& after.bytes_served == before.bytes_served.wrapping_add(
        match sent {
            Some(bytes) => bytes,
            None => 0,
        },
    )
    &&& after.cache_hits == before.cache_hits.wrapping_add(hits)
    &&& after.cache_misses == before.cache_misses.wrapping_add(misses)
    &&& after.error_count == before.error_count.wrapping_add(errors)
}

/// However a file request ends, it is counted once, its connection is closed, and it
/// counts as exactly one successful serve, with its bytes, or one failed serve, with
/// none. A request that is refused is neither a hit nor a miss; a missing file is one
/// miss, proxied or not; a cached one is one hit, and one error where it is broken.
pub proof fn law_every_request_is_counted(
    m: MetricsCollector,
    bytes: u64,
    elapsed_ms: u64,
)
    ensures
        ({
            let entered = m.requested().connected();
            let refused = entered.disconnected().failed();
            let missing = entered.missed().disconnected().failed();
            let proxied = entered.missed().disconnected().served(bytes);
            let broken = entered.hit().disconnected().failed().errored();
            let served = entered.hit().served(bytes).responded(elapsed_ms).disconnected();
            &&& counts_once(m, refused, None, 0, 0, 0)
            &&& counts_once(m, missing, None, 0, 1, 0)
            &&& counts_once(m, proxied, Some(bytes), 0, 1, 0)
            &&& counts_once(m, broken, None, 1, 0, 1)
            &&& counts_once(m, served, Some(bytes), 1, 0, 0)
        }),
{
}

/// Data that were stored under their hash are fit to be served, checked or not; and
/// data that pass a check are the ones with that hash.
pub proof fn law_checked_data_are_genuine(data: Seq<u8>, size: u64, hash: Seq<char>)
    ensures
        hash == digest::sha1_hex(data) && size == data.len() ==> data_fault(
            Some(data),
            size,
            hash,
            true,
        ) is None && data_fault(Some(data), size, hash, false) is None,
        data_fault(Some(data), size, hash, true) is None <==> hash == digest::sha1_hex(data) && size
            == data.len(),
        data_fault(None, size, hash, true) is Some,
{
}

/// A file whose keystamp is malformed or not valid is refused, cached or not; with
/// the key for its file and a time within the window it is not.
pub proof fn law_keystamps_guard_files(
    file_id: Seq<char>,
    timestamp: int,
    server_time: int,
    client_key: Seq<char>,
)
    requires
        i64::MIN <= timestamp <= i64::MAX,
        timestamp >= 0,
        file_hash(file_id).len() > 0,
    ensures
        ({
            let stamp = text::decimal_int(timestamp) + seq!['-'] + api::keystamp_key(
                timestamp,
                file_id,
                client_key,
            );
            let worth = keystamp_worth(Some(stamp), file_id, server_time, client_key);
            &&& worth == Keystamp::Accepted <==> -900 <= server_time - timestamp <= 900
            &&& refusal(file_hash(file_id), worth) is None <==> worth == Keystamp::Accepted
        }),
{
    let time = text::decimal_int(timestamp);
    let key = api::keystamp_key(timestamp, file_id, client_key);
    let stamp = time + seq!['-'] + key;
    text::lemma_decimal_value(timestamp as nat);
    assert forall|j: int| 0 <= j < time.len() implies stamp[j] != '-' by {
        assert(text::is_digit(time[j]));
    }
    text::lemma_index_of_unique(stamp, '-', time.len() as int);
    assert(stamp.take(time.len() as int) =~= time);
    assert(stamp.skip(time.len() as int + 1) =~= key);
    text::law_decimal_reads_back(timestamp, i64::MIN as int, i64::MAX as int);
    api::law_keystamp_accepted(file_id, timestamp, server_time, client_key);
}

// ---------------------------------------------------------------------------
// Speed tests and server commands
// ---------------------------------------------------------------------------

/// The most bytes that a speed test sends.
pub const SPEED_TEST_LIMIT: usize = 10_000_000;

/// The bytes that a speed test sends: as many as are asked for, 1000 where that is
/// no number, and never more than the limit.
pub open spec fn test_size(asked: Option<Seq<char>>) -> nat {
    let size = match asked {
        Some(s) => match text::parsed_unsigned(s, usize::MAX as int) {
            Some(n) => n,
            None => 1000,
        },
        None => 1000,
    };
    if size > SPEED_TEST_LIMIT {
        SPEED_TEST_LIMIT as nat
    } else {
        size as nat
    }
}

fn test_size_of(asked: &Option<String>) -> (n: usize)
    ensures
        n == test_size(web::optional_text(*asked)),
        n <= SPEED_TEST_LIMIT,
{
    let mut size: u64 = 1000;
    if let Some(s) = asked {
        if let Some(n) = text::parse_unsigned(s.as_str(), usize::MAX as u64) {
            size = n;
        }
    }
    if size > SPEED_TEST_LIMIT as u64 {
        SPEED_TEST_LIMIT
    } else {
        size as usize
    }
}

/// The number of bytes that a speed test sends: what stands at the end of its path
/// before anything that is no number.
pub fn speed_test_size(path: &str) -> (n: usize)
    ensures
        n == test_size(Some(text::trim_end_non_numeric(path@))),
        n <= SPEED_TEST_LIMIT,
{
    let asked = Some(text::trim_to_numeric_end(path));
    test_size_of(&asked)
}

/// A speed test: the number of bytes to send. They count as a transfer.
pub fn speed_test(throttler: &mut BandwidthThrottler, path: &str, now: u64) -> (n: usize)
    requires
        old(throttler).wf(),
        old(throttler).has_room(test_size(Some(text::trim_end_non_numeric(path@))) as u64),
    ensures
        final(throttler).wf(),
        n == test_size(Some(text::trim_end_non_numeric(path@))),
        final(throttler).recorded(old(throttler), n as u64, now),
{
    let n: usize = speed_test_size(path);
    throttler.record_transfer(n as u64, now);
    n
}

/// The value of the last query parameter with this name.
pub open spec fn query(params: Seq<(Seq<char>, Seq<char>)>, name: Seq<char>) -> Option<Seq<char>>
    decreases params.len(),
{
    if params.len() == 0 {
        None
    } else if params.last().0 == name {
        Some(params.last().1)
    } else {
        query(params.drop_last(), name)
    }
}

pub open spec fn param_views(params: Seq<(String, String)>) -> Seq<(Seq<char>, Seq<char>)> {
    params.map_values(|p: (String, String)| (p.0@, p.1@))
}

/// The value of the last query parameter with this name.
pub fn query_param(params: &Vec<(String, String)>, name: &str) -> (r: Option<String>)
    ensures
        web::optional_text(r) == query(param_views(params@), name@),
{
    let ghost all = param_views(params@);
    let mut n: usize = params.len();
    proof {
        assert(all.take(n as int) =~= all);
    }
    while n > 0
        invariant
            n <= params.len(),
            all == param_views(params@),
            query(all, name@) == query(all.take(n as int), name@),
        decreases n,
    {
        proof {
            assert(all.take(n as int).drop_last() =~= all.take(n - 1));
            assert(all.take(n as int).last() == (params@[n - 1].0@, params@[n - 1].1@));
        }
        if text::same(params[n - 1].0.as_str(), name) {
            return Some(params[n - 1].1.clone());
        }
        n = n - 1;
    }
    None
}

/// How to answer a command of the H@H server.
#[derive(Debug, Clone, Copy, PartialEq, Eq, Structural)]
pub enum CommandAction {
    /// Send this many zero bytes.
    SendZeros(usize),
    /// Say `OK`.
    Acknowledge,
    /// Send the cache statistics.
    CacheStats,
    /// Send the server statistics.
    ServerStat,
    /// Start the downloader and say `OK`.
    StartDownloader,
    /// Stop the downloader and say `OK`.
    StopDownloader,
    /// Say `PROXY_OK`.
    ProxyOk,
    /// Say `PROXY_DISABLED`.
    ProxyDisabled,
    /// Send the client's information.
    Info,
    /// Say `Unknown command`, as a bad request.
    Unknown,
}

/// What a command asks for.
pub open spec fn command(params: Seq<(Seq<char>, Seq<char>)>, proxy_mode: bool) -> CommandAction {
    let cmd = api::text_param(query(params, "cmd"@), Seq::empty());
    if cmd == "speed_test"@ {
        CommandAction::SendZeros(test_size(query(params, "size"@)) as usize)
    } else if cmd == "still_alive"@ {
        CommandAction::Acknowledge
    } else if cmd == "cache_stats"@ {
        CommandAction::CacheStats
    } else if cmd == "server_stat"@ {
        CommandAction::ServerStat
    } else if cmd == "refresh_settings"@ {
        CommandAction::Acknowledge
    } else if cmd == "start_downloader"@ {
        CommandAction::StartDownloader
    } else if cmd == "stop_downloader"@ {
        CommandAction::StopDownloader
    } else if cmd == "throttle"@ {
        CommandAction::Acknowledge
    } else if cmd == "proxy_test"@ {
        if proxy_mode {
            CommandAction::ProxyOk
        } else {
            CommandAction::ProxyDisabled
        }
    } else if cmd == "get_info"@ {
        CommandAction::Info
    } else {
        CommandAction::Unknown
    }
}

/// The limit that a command sets, where it sets one.
pub open spec fn throttle_set(params: Seq<(Seq<char>, Seq<char>)>) -> Option<i64> {
    if query(params, "cmd"@) == Some("throttle"@) {
        match query(params, "bytes"@) {
            Some(s) => match text::parsed_signed(s, i64::MIN as int, i64::MAX as int) {
                Some(n) => Some(n as i64),
                None => None,
            },
            None => None,
        }
    } else {
        None
    }
}

/// What a command asks for.
pub fn command_of(params: &Vec<(String, String)>, proxy_mode: bool) -> (action: CommandAction)
    ensures
        action == command(param_views(params@), proxy_mode),
{
    let name = match query_param(params, "cmd") {
        Some(s) => s,
        None => String::new(),
    };
    let cmd = name.as_str();
    if text::same(cmd, "speed_test") {
        CommandAction::SendZeros(test_size_of(&query_param(params, "size")))
    } else if text::same(cmd, "still_alive") {
        CommandAction::Acknowledge
    } else if text::same(cmd, "cache_stats") {
        CommandAction::CacheStats
    } else if text::same(cmd, "server_stat") {
        CommandAction::ServerStat
    } else if text::same(cmd, "refresh_settings") {
        CommandAction::Acknowledge
    } else if text::same(cmd, "start_downloader") {
        CommandAction::StartDownloader
    } else if text::same(cmd, "stop_downloader") {
        CommandAction::StopDownloader
    } else if text::same(cmd, "throttle") {
        CommandAction::Acknowledge
    } else if text::same(cmd, "proxy_test") {
        if proxy_mode {
            CommandAction::ProxyOk
        } else {
            CommandAction::ProxyDisabled
        }
    } else if text::same(cmd, "get_info") {
        CommandAction::Info
    } else {
        CommandAction::Unknown
    }
}

fn throttle_of(params: &Vec<(String, String)>) -> (r: Option<i64>)
    ensures
        r == throttle_set(param_views(params@)),
{
    match query_param(params, "cmd") {
        Some(cmd) => if !text::same(cmd.as_str(), "throttle") {
            return None;
        },
        None => {
            return None;
        },
    }
    match query_param(params, "bytes") {
        Some(s) => text::parse_signed(s.as_str(), i64::MIN, i64::MAX),
        None => None,
    }
}

/// Handle a command of the H@H server. A speed test counts as a transfer.
pub fn server_command(
    params: &Vec<(String, String)>,
    proxy_mode: bool,
    throttler: &mut BandwidthThrottler,
    now: u64,
) -> (action: CommandAction)
    requires
        old(throttler).wf(),
        command(param_views(params@), proxy_mode) matches CommandAction::SendZeros(n) ==> old(
            throttler,
        ).has_room(n as u64),
    ensures
        final(throttler).wf(),
        action == command(param_views(params@), proxy_mode),
        action matches CommandAction::SendZeros(n) ==> final(throttler).recorded(
            old(throttler),
            n as u64,
            now,
        ),
        !(action is SendZeros) ==> *final(throttler) == (match throttle_set(
            param_views(params@),
        ) {
            Some(limit) => BandwidthThrottler { server_throttle: limit, ..*old(throttler) },
            None => *old(throttler),
        }),
{
    let action = command_of(params, proxy_mode);
    match action {
        CommandAction::SendZeros(n) => {
            throttler.record_transfer(n as u64, now);
        },
        _ => {
            if let Some(limit) = throttle_of(params) {
                throttler.set_server_throttle(limit);
            }
        },
    }
    action
}

/// What is said in answer to a command, where it is answered with a text.
pub open spec fn command_text(action: CommandAction) -> Option<(u16, Seq<char>)> {
    match action {
        CommandAction::Acknowledge | CommandAction::StartDownloader | CommandAction::StopDownloader => Some(
            (200, "OK"@),
        ),
        CommandAction::ProxyOk => Some((200, "PROXY_OK"@)),
        CommandAction::ProxyDisabled => Some((200, "PROXY_DISABLED"@)),
        CommandAction::Unknown => Some((400, "Unknown command"@)),
        _ => None,
    }
}

/// What is said in answer to a command, where it is answered with a text.
pub fn command_reply(action: CommandAction) -> (r: Option<Reply>)
    ensures
        match r {
            Some(reply) => command_text(action) == Some((reply.status, reply.body@)),
            None => command_text(action) is None,
        },
{
    match action {
        CommandAction::Acknowledge | CommandAction::StartDownloader | CommandAction::StopDownloader => Some(
            Reply { status: 200, body: "OK" },
        ),
        CommandAction::ProxyOk => Some(Reply { status: 200, body: "PROXY_OK" }),
        CommandAction::ProxyDisabled => Some(Reply { status: 200, body: "PROXY_DISABLED" }),
        CommandAction::Unknown => Some(Reply { status: 400, body: "Unknown command" }),
        _ => None,
    }
}

/// A speed test never sends more than ten million bytes.
pub proof fn law_speed_tests_are_capped(asked: Option<Seq<char>>)
    ensures
        test_size(asked) <= 10_000_000,
        asked is None ==> test_size(asked) == 1000,
{
    if let Some(s) = asked {
        text::lemma_parsed_unsigned(s, usize::MAX as int);
    }
}

// ---------------------------------------------------------------------------
// Parameters of the API
// ---------------------------------------------------------------------------

/// The gallery that a request names: by its address or by number and token.
pub open spec fn named_gallery(
    url: Option<Seq<char>>,
    id: Option<Seq<char>>,
    token: Option<Seq<char>>,
    missing: Seq<char>,
) -> Result<(Seq<char>, Seq<char>), Seq<char>> {
    match url {
        Some(u) => match archive::gallery_of(web::regex_groups(web::GALLERY_LINK@, u)) {
            Some(gallery) => Ok(gallery),
            None => Err("Invalid gallery URL"@),
        },
        None => match (id, token) {
            (Some(i), Some(t)) => Ok((i, t)),
            _ => Err(missing),
        },
    }
}

pub open spec fn gallery_matches(
    r: Result<(String, String), &'static str>,
    expected: Result<(Seq<char>, Seq<char>), Seq<char>>,
) -> bool {
    match (r, expected) {
        (Ok((id, token)), Ok((i, t))) => id@ == i && token@ == t,
        (Err(m), Err(e)) => m@ == e,
        _ => false,
    }
}

/// The gallery that a request names; `missing` is said where it names none.
pub fn requested_gallery(
    url: &Option<String>,
    id: &Option<String>,
    token: &Option<String>,
    missing: &'static str,
) -> (r: Result<(String, String), &'static str>)
    ensures
        gallery_matches(
            r,
            named_gallery(
                web::optional_text(*url),
                web::optional_text(*id),
                web::optional_text(*token),
                missing@,
            ),
        ),
{
    match url {
        Some(u) => match archive::ArchiveDownloader::parse_gallery_url(u.as_str()) {
            Some(gallery) => Ok(gallery),
            None => Err("Invalid gallery URL"),
        },
        None => match (id, token) {
            (Some(i), Some(t)) => Ok((i.clone(), t.clone())),
            _ => Err(missing),
        },
    }
}

/// The gallery whose information is asked for.
pub fn get_gallery_info(params: &GalleryDownloadParams) -> (r: Result<
    (String, String),
    &'static str,
>)
    ensures
        gallery_matches(
            r,
            named_gallery(
                web::optional_text(params.url),
                web::optional_text(params.gallery_id),
                web::optional_text(params.gallery_token),
                "Missing parameters"@,
            ),
        ),
{
    requested_gallery(
        &params.url,
        &params.gallery_id,
        &params.gallery_token,
        "Missing parameters",
    )
}

/// The gallery download that is asked for, where such downloads are enabled.
pub fn queue_gallery_download(enabled: bool, params: &GalleryDownloadParams) -> (r: Result<
    DownloadRequest,
    &'static str,
>)
    ensures
        !enabled ==> r is Err && r->Err_0@ == "Gallery download is disabled"@,
        enabled ==> match named_gallery(
            web::optional_text(params.url),
            web::optional_text(params.gallery_id),
            web::optional_text(params.gallery_token),
            "Missing gallery_id or gallery_token"@,
        ) {
            Ok((id, token)) => {
                &&& r matches Ok(request)
                &&& request.gallery_id@ == id
                &&& request.gallery_token@ == token
                &&& request.start_page == params.start_page
                &&& request.end_page == params.end_page
                &&& request.priority == 5
            },
            Err(m) => r is Err && r->Err_0@ == m,
        },
{
    if !enabled {
        return Err("Gallery download is disabled");
    }
    match requested_gallery(
        &params.url,
        &params.gallery_id,
        &params.gallery_token,
        "Missing gallery_id or gallery_token",
    ) {
        Ok((gallery_id, gallery_token)) => Ok(
            DownloadRequest {
                gallery_id,
                gallery_token,
                start_page: params.start_page,
                end_page: params.end_page,
                priority: 5,
            },
        ),
        Err(m) => Err(m),
    }
}

/// The resolution that a request names; the original where it names none.
pub open spec fn requested_resolution(name: Option<Seq<char>>) -> ArchiveResolution {
    match name {
        Some(s) => match ArchiveResolution::named(s) {
            Some(resolution) => resolution,
            None => ArchiveResolution::Original,
        },
        None => ArchiveResolution::Original,
    }
}

/// The archive download that is asked for.
pub fn queue_archive_download(params: &ArchiveDownloadParams) -> (r: Result<
    ArchiveRequest,
    &'static str,
>)
    ensures
        match named_gallery(
            web::optional_text(params.url),
            web::optional_text(params.gallery_id),
            web::optional_text(params.gallery_token),
            "Missing gallery_id or gallery_token"@,
        ) {
            Ok((id, token)) => {
                &&& r matches Ok(request)
                &&& request.gallery_id@ == id
                &&& request.gallery_token@ == token
                &&& request.resolution == requested_resolution(
                    web::optional_text(params.resolution),
                )
                &&& request.or_token is None
            },
            Err(m) => r is Err && r->Err_0@ == m,
        },
{
    match requested_gallery(
        &params.url,
        &params.gallery_id,
        &params.gallery_token,
        "Missing gallery_id or gallery_token",
    ) {
        Ok((gallery_id, gallery_token)) => {
            let resolution = match &params.resolution {
                Some(name) => match ArchiveResolution::from_str(name.as_str()) {
                    Some(resolution) => resolution,
                    None => ArchiveResolution::Original,
                },
                None => ArchiveResolution::Original,
            };
            Ok(ArchiveRequest { gallery_id, gallery_token, resolution, or_token: None })
        },
        Err(m) => Err(m),
    }
}

/// How many archives are listed: as many as are asked for, or else fifty.
pub fn list_limit(params: &Vec<(String, String)>) -> (n: i64)
    ensures
        n == api::number_param(
            query(param_views(params@), "limit"@),
            i64::MIN as int,
            i64::MAX as int,
            50,
            50,
        ),
{
    match query_param(params, "limit") {
        Some(s) => match text::parse_signed(s.as_str(), i64::MIN, i64::MAX) {
            Some(n) => n,
            None => 50,
        },
        None => 50,
    }
}

// ---------------------------------------------------------------------------
// Status
// ---------------------------------------------------------------------------

/// Status of the client.
#[derive(Debug)]
pub struct StatusResponse {
    pub version: String,
    pub client_id: String,
    pub cache_size_bytes: u64,
    pub cache_files: usize,
    pub cache_hits: u64,
    pub cache_misses: u64,
    pub bytes_served: u64,
    pub uptime_seconds: u64,
    pub gallery_download_enabled: bool,
    pub trust: Ratio,
    /// The quality is the mean of these two scores.
    pub quality: (Ratio, Ratio),
    pub successful_serves: u64,
    pub failed_serves: u64,
    pub current_connections: u64,
    pub peak_connections: u64,
    pub bytes_per_second: u64,
    pub bytes_per_hour: u64,
    pub is_throttled: bool,
    pub static_ranges_enabled: bool,
    pub proxy_mode_enabled: bool,
}

/// Get the client's status. `now` is in nanoseconds on the running clock.
pub fn get_status(
    config: &Config,
    cache: &CacheManager,
    collector: &MetricsCollector,
    throttler: &mut BandwidthThrottler,
    now: u64,
) -> (r: StatusResponse)
    requires
        old(throttler).wf(),
    ensures
        final(throttler).wf(),
        final(throttler).looked_at(old(throttler), now),
        r.version@ == config::VERSION@,
        r.client_id@ == config.client_id@,
        r.cache_size_bytes == cache.stats.total_size,
        r.cache_files == cache.files().len(),
        r.cache_hits == cache.stats.hits,
        r.cache_misses == cache.stats.misses,
        r.bytes_served == cache.stats.bytes_served,
        r.uptime_seconds == now.saturating_sub(collector.start_instant) / 1_000_000_000,
        r.gallery_download_enabled == config.gallery_download_enabled,
        r.trust == metrics::trust(collector.successful_serves, collector.failed_serves),
        r.quality == collector.quality(),
        r.successful_serves == collector.successful_serves,
        r.failed_serves == collector.failed_serves,
        r.current_connections == collector.current_connections,
        r.peak_connections == collector.peak_connections,
        r.bytes_per_second == old(throttler).second_at(now),
        r.bytes_per_hour == old(throttler).hour_at(now),
        r.is_throttled == old(throttler).throttled(now),
        r.static_ranges_enabled == config.static_ranges,
        r.proxy_mode_enabled == config.proxy_mode,
{
    let stats = cache.get_stats();
    let measured = collector.get_metrics(now, 0);
    let is_throttled = throttler.is_throttled(now);
    proof {
        throttle::lemma_looked_at_again(throttler, old(throttler), now);
    }
    let bandwidth = throttler.get_stats(now);
    StatusResponse {
        version: config::VERSION.to_string(),
        client_id: config.client_id.clone(),
        cache_size_bytes: stats.total_size,
        cache_files: cache.get_file_count(),
        cache_hits: stats.hits,
        cache_misses: stats.misses,
        bytes_served: stats.bytes_served,
        uptime_seconds: measured.uptime_seconds,
        gallery_download_enabled: config.gallery_download_enabled,
        trust: measured.trust,
        quality: measured.quality,
        successful_serves: measured.successful_serves,
        failed_serves: measured.failed_serves,
        current_connections: measured.current_connections,
        peak_connections: measured.peak_connections,
        bytes_per_second: bandwidth.bytes_per_second,
        bytes_per_hour: bandwidth.bytes_per_hour,
        is_throttled,
        static_ranges_enabled: config.static_ranges,
        proxy_mode_enabled: config.proxy_mode,
    }
}

// ---------------------------------------------------------------------------
// Laws
// ---------------------------------------------------------------------------

/// The seconds from `last` to `now`, in whole seconds towards zero.
pub open spec fn seconds_between(last: i64, now: i64) -> int {
    if now >= last {
        (now - last) / 1000
    } else {
        -((last - now) / 1000)
    }
}

/// A connection takes from the count of the address the seconds since its last one, down
/// to nothing, and adds one. Up to ten it is allowed; beyond, the address is blocked for
/// sixty seconds. A blocked address is refused, and nothing changes. What other addresses
/// have is not touched.
pub proof fn law_connections_are_limited(
    flood: &mut FloodControl,
    ip: &str,
    now: i64,
    allowed: bool,
    entry: FloodControlEntry,
    count: int,
)
    requires
        call_ensures(FloodControl::check_and_record, (flood, ip, now), allowed),
        !web::is_local_address(ip@),
        old(flood)@.contains_key(ip@) ==> entry == old(flood)@[ip@],
        !old(flood)@.contains_key(ip@) ==> entry.connect_count == 0 && entry.last_connect == 0
            && entry.block_until == 0,
        i64::MIN <= now - entry.last_connect <= i64::MAX,
        i64::MIN <= entry.connect_count - seconds_between(entry.last_connect, now) < i64::MAX,
        now <= i64::MAX - 60_000,
        count == entry.connect_count - seconds_between(entry.last_connect, now),
    ensures
        entry.block_until > now ==> !allowed && final(flood)@ == old(flood)@.insert(ip@, entry),
        entry.block_until <= now && count < 0 ==> allowed && final(flood)@ == old(flood)@.insert(
            ip@,
            FloodControlEntry {
                connect_count: 1,
                last_connect: now,
                block_until: entry.block_until,
            },
        ),
        entry.block_until <= now && 0 <= count < 10 ==> allowed && final(flood)@
            == old(flood)@.insert(
            ip@,
            FloodControlEntry {
                connect_count: (count + 1) as i64,
                last_connect: now,
                block_until: entry.block_until,
            },
        ),
        entry.block_until <= now && count >= 10 ==> !allowed && final(flood)@ == old(flood)@.insert(
            ip@,
            FloodControlEntry {
                connect_count: (count + 1) as i64,
                last_connect: now,
                block_until: (now + 60_000) as i64,
            },
        ),
{
}

/// The same of one entry by itself.
pub proof fn law_hits_are_counted(
    entry: &mut FloodControlEntry,
    now: i64,
    allowed: bool,
    blocked: bool,
    stale: bool,
    fresh: FloodControlEntry,
)
    requires
        call_ensures(FloodControlEntry::hit, (entry, now), allowed),
        call_ensures(FloodControlEntry::is_blocked, (&*old(entry), now), blocked),
        call_ensures(FloodControlEntry::is_stale, (&*old(entry), now), stale),
        call_ensures(FloodControlEntry::new, (), fresh),
        i64::MIN <= now - old(entry).last_connect <= i64::MAX,
        i64::MIN <= old(entry).connect_count - seconds_between(old(entry).last_connect, now)
            < i64::MAX,
        now <= i64::MAX - 60_000,
    ensures
        blocked <==> old(entry).block_until > now,
        stale <==> old(entry).last_connect < now - 60_000,
        fresh.connect_count == 0 && fresh.last_connect == 0 && fresh.block_until == 0,
        ({
            let count = old(entry).connect_count - seconds_between(old(entry).last_connect, now);
            &&& allowed <==> count < 10
            &&& final(entry).connect_count == (if count < 0 {
                1
            } else {
                count + 1
            })
            &&& final(entry).last_connect == now
            &&& final(entry).block_until == (if count < 10 {
                old(entry).block_until as int
            } else {
                now + 60_000
            })
        }),
{
}

/// Local addresses are loopback, private and link-local ones, by how they begin; they are
/// always allowed and not recorded. Pruning drops just the entries without a connection in
/// the last sixty seconds. A new table holds none.
pub proof fn law_local_addresses_are_free(
    flood: &mut FloodControl,
    other: &mut FloodControl,
    ip: &str,
    now: i64,
    local: bool,
    allowed: bool,
    fresh: FloodControl,
    address: Seq<char>,
)
    requires
        call_ensures(FloodControl::check_and_record, (flood, ip, now), allowed),
        call_ensures(FloodControl::is_local_network, (&*old(flood), ip), local),
        call_ensures(FloodControl::prune_stale, (other, now), ()),
        call_ensures(FloodControl::new, (), fresh),
    ensures
        local ==> allowed && final(flood)@ == old(flood)@,
        local <==> web::regex_matches(
            r"^((localhost)|(127\.)|(10\.)|(192\.168\.)|(172\.((1[6-9])|(2[0-9])|(3[0-1]))\.)|(169\.254\.)|(::1)|(0:0:0:0:0:0:0:1)|(fc)|(fd)).*$"@,
            ip@,
        ),
        local <==> !ip@.contains('\n') && {
            ||| text::starts_with(ip@, "localhost"@)
            ||| text::starts_with(ip@, "127."@)
            ||| text::starts_with(ip@, "10."@)
            ||| text::starts_with(ip@, "192.168."@)
            ||| text::starts_with(ip@, "169.254."@)
            ||| text::starts_with(ip@, "::1"@)
            ||| text::starts_with(ip@, "0:0:0:0:0:0:0:1"@)
            ||| text::starts_with(ip@, "fc"@)
            ||| text::starts_with(ip@, "fd"@)
            ||| exists|n: nat|
                16 <= n <= 31 && text::starts_with(ip@, "172."@ + #[trigger] text::decimal(n)
                    + "."@)
        },
        final(other)@.contains_key(address) <==> old(other)@.contains_key(address)
            && old(other)@[address].last_connect >= now - 60_000,
        final(other)@.contains_key(address) ==> final(other)@[address] == old(other)@[address],
        fresh@.dom() == Set::<Seq<char>>::empty(),
{
    lemma_private_172(ip@);
    assert(fresh@.dom() =~= Set::<Seq<char>>::empty());
}

proof fn lemma_private_172(s: Seq<char>)
    ensures
        web::in_private_172(s) <==> exists|n: nat|
            16 <= n <= 31 && text::starts_with(s, "172."@ + #[trigger] text::decimal(n) + "."@),
{
    reveal_strlit("172.");
    reveal_strlit(".");
    assert("172."@.len() == 4 && "."@.len() == 1 && "."@[0] == '.');
    assert forall|n: nat| 16 <= n <= 31 implies text::decimal(n) == seq![
        text::digit_char((n / 10) as int),
        text::digit_char((n % 10) as int),
    ] by {
        assert(text::decimal(n / 10) =~= seq![text::digit_char((n / 10) as int)]);
        assert(text::decimal(n) =~= seq![
            text::digit_char((n / 10) as int),
            text::digit_char((n % 10) as int),
        ]);
    }
    if web::in_private_172(s) {
        let n: nat = (10 * (s[4] as u32 - 48) + (s[5] as u32 - 48)) as nat;
        assert(16 <= n <= 31);
        let p = "172."@ + text::decimal(n) + "."@;
        assert(n / 10 == s[4] as u32 - 48 && n % 10 == s[5] as u32 - 48);
        assert(s.subrange(0, 4) == "172."@);
        assert forall|i: int| 0 <= i < 4 implies s[i] == "172."@[i] by {
            assert(s.subrange(0, 4)[i] == s[i]);
        }
        assert(s.subrange(0, p.len() as int) =~= p);
    }
    if exists|n: nat|
        16 <= n <= 31 && text::starts_with(s, "172."@ + #[trigger] text::decimal(n) + "."@) {
        let n = choose|n: nat|
            16 <= n <= 31 && text::starts_with(s, "172."@ + #[trigger] text::decimal(n) + "."@);
        let p = "172."@ + text::decimal(n) + "."@;
        assert(p.len() == 7);
        assert forall|i: int| 0 <= i < 7 implies s[i] == p[i] by {
            assert(s.subrange(0, 7)[i] == s[i]);
        }
        assert(s.subrange(0, 4) =~= "172."@);
        assert(s[4] == text::digit_char((n / 10) as int));
        assert(s[5] == text::digit_char((n % 10) as int));
    }
}

/// A verification can be made where the last one is two seconds ago or more, and counts
/// from then on; a file is due for one where it was never verified, or more than a week
/// ago.
pub proof fn law_verifications_are_due(
    tracker: &mut FileVerificationTracker,
    other: &mut FileVerificationTracker,
    hash: &str,
    now: i64,
    can: bool,
    should: bool,
    fresh: FileVerificationTracker,
)
    requires
        call_ensures(FileVerificationTracker::can_verify_now, (tracker, now), can),
        call_ensures(FileVerificationTracker::should_verify, (&*old(tracker), hash, now), should),
        call_ensures(FileVerificationTracker::record_verification, (other, hash, now), ()),
        call_ensures(FileVerificationTracker::new, (), fresh),
    ensures
        can <==> now - old(tracker).last_verification >= 2000,
        can ==> final(tracker).last_verification == now,
        !can ==> final(tracker).last_verification == old(tracker).last_verification,
        final(tracker).verified_files == old(tracker).verified_files,
        should <==> !old(tracker).verified_files@.contains_key(hash@)
            || now - old(tracker).verified_files@[hash@] > 604_800_000,
        final(other).verified_files@ == old(other).verified_files@.insert(hash@, now),
        final(other).last_verification == old(other).last_verification,
        fresh.last_verification == 0,
        fresh.verified_files@.dom() == Set::<Seq<char>>::empty(),
{
    assert(fresh.verified_files@.dom() =~= Set::<Seq<char>>::empty());
}

/// A keystamp is a time, a hyphen and a key. It is accepted just where the key opens the
/// file at that time, where a time that is no number is 0; without a hyphen it is
/// malformed; and a request without one is accepted.
pub proof fn law_keystamps_are_checked(
    client: HahApiClient,
    keystamp: Option<String>,
    file_id: &str,
    local_time: i64,
    worth: Keystamp,
    time: Seq<char>,
    key: &str,
    timestamp: i64,
    opened: bool,
)
    requires
        call_ensures(check_keystamp, (&client, &keystamp, file_id, local_time), worth),
        !time.contains('-'),
        timestamp == (match text::parsed_signed(
            time,
            -0x8000_0000_0000_0000,
            0x7fff_ffff_ffff_ffff,
        ) {
            Some(n) => n,
            None => 0,
        }),
        call_ensures(
            HahApiClient::verify_request,
            (&client, file_id, key, timestamp, local_time),
            opened,
        ),
    ensures
        keystamp is None ==> worth == Keystamp::Accepted,
        keystamp is Some && keystamp->0@ == time + seq!['-'] + key@ ==> worth == (if opened {
            Keystamp::Accepted
        } else {
            Keystamp::Invalid
        }),
        keystamp is Some && keystamp->0@ == time ==> worth == Keystamp::Malformed,
{
    text::law_split_once(time, '-', key@);
}

/// The hash of a file is its name up to the first underscore, or all of it.
pub proof fn law_names_begin_with_the_hash(
    file_id: &str,
    hash: String,
    front: Seq<char>,
    rest: Seq<char>,
)
    requires
        call_ensures(hash_of_file, (file_id,), hash),
        !front.contains('_'),
    ensures
        file_id@ == front + seq!['_'] + rest ==> hash@ == front,
        file_id@ == front ==> hash@ == front,
{
    text::law_split(front, '_', rest);
}

/// A file request: one without a hash in its name is a bad one; one whose keystamp, the
/// last of its path or else that of the query, is not accepted, is forbidden; one for a
/// file that is not cached is answered that it is missing, or asked for elsewhere where
/// the client is a proxy; and for any other the cached file is read, and its use noted.
pub proof fn law_requests_are_served(
    metrics: &mut MetricsCollector,
    cache: &mut CacheManager,
    client: HahApiClient,
    file_id: &str,
    additional: &str,
    params: FileRequest,
    local_time: i64,
    step: ServeStep,
    hash: String,
    stamp: Option<String>,
    worth: Keystamp,
)
    requires
        call_ensures(
            serve_file_internal,
            (metrics, cache, &client, file_id, additional, &params, local_time),
            step,
        ),
        call_ensures(hash_of_file, (file_id,), hash),
        call_ensures(check_keystamp, (&client, &stamp, file_id, local_time), worth),
        api::no_line_says(text::split(additional@, ';'), "keystamp"@) ==> stamp == params.keystamp,
        stamp is Some || api::no_line_says(text::split(additional@, ';'), "keystamp"@),
        api::no_line_says(text::split(additional@, ';'), "keystamp"@) || api::last_line_says(
            text::split(additional@, ';'),
            "keystamp"@,
            stamp->0@,
        ),
    ensures
        final(metrics).total_requests == old(metrics).total_requests.wrapping_add(1),
        final(metrics).connections_handled == old(metrics).connections_handled.wrapping_add(1),
        final(metrics).bytes_served == old(metrics).bytes_served,
        final(metrics).successful_serves == old(metrics).successful_serves,
        final(metrics).error_count == old(metrics).error_count,
        hash@.len() == 0 ==> step is Respond && step->Respond_0.status == 400
            && step->Respond_0.body@ == "Invalid file ID"@,
        hash@.len() > 0 && worth == Keystamp::Invalid ==> step is Respond && step->Respond_0.status
            == 403 && step->Respond_0.body@ == "Invalid request"@,
        hash@.len() > 0 && worth == Keystamp::Malformed ==> step is Respond
            && step->Respond_0.status == 403 && step->Respond_0.body@ == "Invalid keystamp format"@,
        hash@.len() == 0 || worth != Keystamp::Accepted ==> {
            &&& *final(cache) == *old(cache)
            &&& final(metrics).failed_serves == old(metrics).failed_serves.wrapping_add(1)
            &&& final(metrics).cache_hits == old(metrics).cache_hits
            &&& final(metrics).cache_misses == old(metrics).cache_misses
            &&& final(metrics).current_connections == old(metrics).current_connections
        },
        hash@.len() > 0 && worth == Keystamp::Accepted && old(cache).files().contains_key(hash@)
            ==> {
            &&& step == ServeStep::Read(
                CachedFile {
                    last_accessed: local_time,
                    hit_count: old(cache).files()[hash@].hit_count.wrapping_add(1),
                    ..old(cache).files()[hash@]
                },
            )
            &&& final(cache).files() == old(cache).files().insert(hash@, step->Read_0)
            &&& final(cache).stats.hits == old(cache).stats.hits.wrapping_add(1)
            &&& final(cache).stats.misses == old(cache).stats.misses
            &&& final(cache).stats.bytes_served == old(cache).stats.bytes_served.wrapping_add(
                old(cache).files()[hash@].size,
            )
            &&& final(metrics).cache_hits == old(metrics).cache_hits.wrapping_add(1)
            &&& final(metrics).cache_misses == old(metrics).cache_misses
            &&& final(metrics).failed_serves == old(metrics).failed_serves
            &&& final(metrics).current_connections == old(metrics).current_connections.wrapping_add(
                1,
            )
        },
        hash@.len() > 0 && worth == Keystamp::Accepted && !old(cache).files().contains_key(hash@)
            ==> {
            &&& old(cache).config.proxy_mode ==> step is AskProxy && final(metrics).failed_serves
                == old(metrics).failed_serves
            &&& !old(cache).config.proxy_mode ==> step is Respond && step->Respond_0.status == 404
                && step->Respond_0.body@ == "File not in cache"@ && final(metrics).failed_serves
                == old(metrics).failed_serves.wrapping_add(1)
            &&& final(cache).files() == old(cache).files()
            &&& final(cache).stats.misses == old(cache).stats.misses.wrapping_add(1)
            &&& final(cache).stats.hits == old(cache).stats.hits
            &&& final(metrics).cache_misses == old(metrics).cache_misses.wrapping_add(1)
            &&& final(metrics).cache_hits == old(metrics).cache_hits
            &&& final(metrics).current_connections == old(metrics).current_connections
        },
        final(cache).config == old(cache).config,
        final(cache).total_size == old(cache).total_size,
{
    let pairs = text::split(additional@, ';');
    reveal_strlit("keystamp");
    assert(!"keystamp"@.contains('='));
    api::law_values_are_found(pairs, "keystamp"@, stamp->0@);
}

/// Data that could not be read are an error of the server; data of another size than the
/// file's are corrupted, and so are data that are due for a check and have another hash.
/// All others can be served, and those that were checked are noted as verified.
pub proof fn law_data_are_checked(
    metrics: &mut MetricsCollector,
    verifier: &mut FileVerificationTracker,
    hash: &str,
    file: CachedFile,
    data: Option<&[u8]>,
    now: i64,
    answer: Option<Reply>,
)
    requires
        call_ensures(check_data, (metrics, verifier, hash, &file, data, now), answer),
    ensures
        data is None ==> answer is Some && answer->0.status == 500 && answer->0.body@
            == "File read error"@,
        data is Some && data->0@.len() != file.size ==> answer is Some && answer->0.status == 404
            && answer->0.body@ == "File corrupted"@,
        ({
            let sized = data is Some && data->0@.len() == file.size;
            let due = (!old(verifier).verified_files@.contains_key(hash@)
                || now - old(verifier).verified_files@[hash@] > 604_800_000)
                && now - old(verifier).last_verification
                >= 2000;
            let genuine = data is Some && digest::hex_of(digest::sha1_of(data->0@)) == hash@;
            &&& sized && due && !genuine ==> answer is Some && answer->0.status == 404
                && answer->0.body@ == "File corrupted"@
            &&& sized && (!due || genuine) ==> answer is None
            &&& sized && due ==> final(verifier).last_verification == now
            &&& !(sized && due) ==> final(verifier).last_verification
                == old(verifier).last_verification
            &&& sized && due && genuine ==> final(verifier).verified_files@
                == old(verifier).verified_files@.insert(hash@, now)
            &&& !(sized && due && genuine) ==> final(verifier).verified_files@
                == old(verifier).verified_files@
        }),
        answer is None ==> *final(metrics) == *old(metrics),
        answer is Some ==> *final(metrics) == (MetricsCollector {
            failed_serves: old(metrics).failed_serves.wrapping_add(1),
            error_count: old(metrics).error_count.wrapping_add(1),
            current_connections: old(metrics).current_connections.wrapping_sub(1),
            ..*old(metrics)
        }),
{
}

/// What goes out is counted with its bytes and its time, and has the content type of its
/// file type.
pub proof fn law_data_are_sent(
    metrics: &mut MetricsCollector,
    bytes: u64,
    ms: u64,
    kind: &str,
    content: &'static str,
    other: &'static str,
)
    requires
        call_ensures(serve_data, (metrics, bytes, ms, kind), content),
        call_ensures(content_type_for, (kind,), other),
    ensures
        *final(metrics) == (MetricsCollector {
            successful_serves: old(metrics).successful_serves.wrapping_add(1),
            bytes_served: old(metrics).bytes_served.wrapping_add(bytes),
            response_time_ms: old(metrics).response_time_ms.wrapping_add(ms),
            responses: old(metrics).responses.wrapping_add(1),
            current_connections: old(metrics).current_connections.wrapping_sub(1),
            ..*old(metrics)
        }),
        content@ == other@,
        kind@ == "jpg"@ ==> content@ == "image/jpeg"@,
        kind@ == "jpeg"@ ==> content@ == "image/jpeg"@,
        kind@ == "png"@ ==> content@ == "image/png"@,
        kind@ == "gif"@ ==> content@ == "image/gif"@,
        kind@ == "webp"@ ==> content@ == "image/webp"@,
        kind@ != "jpg"@ && kind@ != "jpeg"@ && kind@ != "png"@ && kind@ != "gif"@ && kind@
            != "webp"@ ==> content@ == "application/octet-stream"@,
{
    reveal_strlit("jpg");
    reveal_strlit("jpeg");
    reveal_strlit("png");
    reveal_strlit("gif");
    reveal_strlit("webp");
    assert("jpg"@.len() == 3 && "jpeg"@.len() == 4 && "png"@.len() == 3 && "gif"@.len() == 3
        && "webp"@.len() == 4);
    assert("jpg"@[0] == 'j' && "png"@[0] == 'p' && "gif"@[0] == 'g');
    assert("jpeg"@[0] == 'j' && "webp"@[0] == 'w');
}

/// A file that another server has goes out as it came from there; where no server has it,
/// or it could not be had, it is missing.
pub proof fn law_files_are_proxied(
    metrics: &mut MetricsCollector,
    other: &mut MetricsCollector,
    third: &mut MetricsCollector,
    answer: Result<Option<String>, ApiError>,
    step: ServeStep,
    url: Option<String>,
    body: Option<&[u8]>,
    reply: FileReply,
    missing: Reply,
)
    requires
        call_ensures(proxy_answered, (metrics, answer), step),
        call_ensures(serve_proxied, (other, url, body), reply),
        call_ensures(serve_missing, (third,), missing),
    ensures
        answer is Ok && answer->Ok_0 is Some ==> step == ServeStep::Fetch(answer->Ok_0->0)
            && *final(metrics) == *old(metrics),
        answer is Err || answer->Ok_0 is None ==> step is Respond && step->Respond_0.status == 404
            && step->Respond_0.body@ == "File not in cache"@ && *final(metrics) == (
        MetricsCollector {
            failed_serves: old(metrics).failed_serves.wrapping_add(1),
            ..*old(metrics)
        }),
        url is Some && body is Some ==> reply.status == 200 && reply.body@ == body->0@
            && *final(other) == (MetricsCollector {
            successful_serves: old(other).successful_serves.wrapping_add(1),
            bytes_served: old(other).bytes_served.wrapping_add(body->0@.len() as u64),
            ..*old(other)
        }),
        url is None || body is None ==> reply.status == 404 && reply.body@ == encode_utf8(
            "File not in cache"@,
        ) && *final(other) == (MetricsCollector {
            failed_serves: old(other).failed_serves.wrapping_add(1),
            ..*old(other)
        }),
        missing.status == 404 && missing.body@ == "File not in cache"@,
        *final(third) == (MetricsCollector {
            failed_serves: old(third).failed_serves.wrapping_add(1),
            ..*old(third)
        }),
{
}

/// A speed test sends as many bytes as the number at the end of its path says, a thousand
/// where that is no number, and ten million at most; they count as a transfer.
pub proof fn law_speed_tests_are_sized(
    path: &str,
    n: usize,
    m: usize,
    throttler: &mut BandwidthThrottler,
    now: u64,
    asked: Seq<char>,
)
    requires
        call_ensures(speed_test_size, (path,), n),
        call_ensures(speed_test, (throttler, path, now), m),
        asked == text::trim_end_non_numeric(path@),
    ensures
        m == n,
        text::parsed_unsigned(asked, usize::MAX as int) matches Some(size) ==> n == (if size
            <= 10_000_000 {
            size
        } else {
            10_000_000
        }),
        text::parsed_unsigned(asked, usize::MAX as int) is None ==> n == 1000,
        final(throttler).recorded(old(throttler), n as u64, now),
{
    text::lemma_parsed_unsigned(asked, usize::MAX as int);
}

/// Of parameters with one name the last counts.
pub proof fn law_last_parameter_counts(
    params: Vec<(String, String)>,
    name: &str,
    value: Option<String>,
    i: int,
)
    requires
        call_ensures(query_param, (&params, name), value),
    ensures
        (forall|j: int| 0 <= j < params@.len() ==> (#[trigger] params@[j]).0@ != name@)
            ==> value is None,
        0 <= i < params@.len() && params@[i].0@ == name@ && (forall|j: int|
            i < j < params@.len() ==> (#[trigger] params@[j]).0@ != name@) ==> value is Some
            && value->0@ == params@[i].1@,
{
    let all = param_views(params@);
    assert forall|j: int| 0 <= j < params@.len() implies all[j] == (
        (#[trigger] params@[j]).0@,
        params@[j].1@,
    ) by {}
    if forall|j: int| 0 <= j < params@.len() ==> (#[trigger] params@[j]).0@ != name@ {
        lemma_query(all, name@, -1);
    }
    if 0 <= i < params@.len() && params@[i].0@ == name@ && (forall|j: int|
        i < j < params@.len() ==> (#[trigger] params@[j]).0@ != name@) {
        assert(all[i] == (params@[i].0@, params@[i].1@));
        lemma_query(all, name@, i);
    }
}

proof fn lemma_query(params: Seq<(Seq<char>, Seq<char>)>, name: Seq<char>, i: int)
    requires
        -1 <= i < params.len(),
        i >= 0 ==> params[i].0 == name,
        forall|j: int| i < j < params.len() ==> (#[trigger] params[j]).0 != name,
    ensures
        query(params, name) == (if i < 0 {
            None
        } else {
            Some(params[i].1)
        }),
    decreases params.len(),
{
    if params.len() > 0 && i < params.len() - 1 {
        assert(params[params.len() - 1].0 != name);
        let rest = params.drop_last();
        assert forall|j: int| i < j < rest.len() implies (#[trigger] rest[j]).0 != name by {
            assert(rest[j] == params[j]);
        }
        lemma_query(rest, name, i);
    }
}

/// Each command has its own answer; a speed test sends as many bytes as its size asks for,
/// as the one by path does, and any other command is unknown.
pub proof fn law_commands_are_answered(
    params: Vec<(String, String)>,
    proxy: bool,
    action: CommandAction,
    cmd: Option<String>,
    size: Option<String>,
    reply: Option<Reply>,
)
    requires
        call_ensures(command_of, (&params, proxy), action),
        call_ensures(query_param, (&params, "cmd"), cmd),
        call_ensures(query_param, (&params, "size"), size),
        call_ensures(command_reply, (action,), reply),
    ensures
        cmd is None ==> action == CommandAction::Unknown,
        cmd matches Some(c) ==> {
            &&& c@ == "speed_test"@ ==> action is SendZeros && reply is None
            &&& c@ == "speed_test"@ && size is None ==> action == CommandAction::SendZeros(1000)
            &&& c@ == "speed_test"@ && size is Some && text::parsed_unsigned(
                size->0@,
                usize::MAX as int,
            ) is None ==> action == CommandAction::SendZeros(1000)
            &&& c@ == "speed_test"@ && size is Some ==> (text::parsed_unsigned(
                size->0@,
                usize::MAX as int,
            ) matches Some(n) ==> action->SendZeros_0 == (if n <= 10_000_000 {
                n
            } else {
                10_000_000
            }))
            &&& c@ == "still_alive"@ || c@ == "refresh_settings"@ || c@ == "throttle"@ ==> action
                == CommandAction::Acknowledge && reply is Some && reply->0.status == 200
                && reply->0.body@ == "OK"@
            &&& c@ == "cache_stats"@ ==> action == CommandAction::CacheStats && reply is None
            &&& c@ == "server_stat"@ ==> action == CommandAction::ServerStat && reply is None
            &&& c@ == "get_info"@ ==> action == CommandAction::Info && reply is None
            &&& c@ == "start_downloader"@ ==> action == CommandAction::StartDownloader
                && reply is Some && reply->0.status == 200 && reply->0.body@ == "OK"@
            &&& c@ == "stop_downloader"@ ==> action == CommandAction::StopDownloader
                && reply is Some && reply->0.status == 200 && reply->0.body@ == "OK"@
            &&& c@ == "proxy_test"@ && proxy ==> action == CommandAction::ProxyOk && reply is Some
                && reply->0.status == 200 && reply->0.body@ == "PROXY_OK"@
            &&& c@ == "proxy_test"@ && !proxy ==> action == CommandAction::ProxyDisabled
                && reply is Some && reply->0.status == 200 && reply->0.body@ == "PROXY_DISABLED"@
            &&& c@ != "speed_test"@ && c@ != "still_alive"@ && c@ != "refresh_settings"@ && c@
                != "throttle"@ && c@ != "cache_stats"@ && c@ != "server_stat"@ && c@ != "get_info"@
                && c@ != "start_downloader"@ && c@ != "stop_downloader"@ && c@ != "proxy_test"@
                ==> action == CommandAction::Unknown && reply is Some && reply->0.status == 400
                && reply->0.body@ == "Unknown command"@
        },
{
    reveal_strlit("speed_test");
    reveal_strlit("still_alive");
    reveal_strlit("cache_stats");
    reveal_strlit("server_stat");
    reveal_strlit("refresh_settings");
    reveal_strlit("start_downloader");
    reveal_strlit("stop_downloader");
    reveal_strlit("throttle");
    reveal_strlit("proxy_test");
    reveal_strlit("get_info");
    assert("speed_test"@.len() == 10 && "proxy_test"@.len() == 10 && "still_alive"@.len() == 11
        && "cache_stats"@.len() == 11 && "server_stat"@.len() == 11 && "refresh_settings"@.len()
        == 16 && "start_downloader"@.len() == 16 && "stop_downloader"@.len() == 15
        && "throttle"@.len() == 8 && "get_info"@.len() == 8);
    assert("speed_test"@[0] == 's' && "proxy_test"@[0] == 'p');
    assert("still_alive"@[1] == 't' && "cache_stats"@[1] == 'a' && "server_stat"@[1] == 'e');
    assert("refresh_settings"@[0] == 'r' && "start_downloader"@[0] == 's');
    assert("throttle"@[0] == 't' && "get_info"@[0] == 'g');
    if size is Some {
        text::lemma_parsed_unsigned(size->0@, usize::MAX as int);
    }
}

/// A command to throttle sets the server's limit to the number of bytes that it names,
/// where that is a number; a speed test counts as a transfer; no other command changes the
/// throttler.
pub proof fn law_commands_throttle(
    params: Vec<(String, String)>,
    proxy: bool,
    throttler: &mut BandwidthThrottler,
    now: u64,
    action: CommandAction,
    other: CommandAction,
    cmd: Option<String>,
    bytes: Option<String>,
)
    requires
        call_ensures(server_command, (&params, proxy, throttler, now), action),
        call_ensures(command_of, (&params, proxy), other),
        call_ensures(query_param, (&params, "cmd"), cmd),
        call_ensures(query_param, (&params, "bytes"), bytes),
    ensures
        action == other,
        action matches CommandAction::SendZeros(n) ==> final(throttler).recorded(
            old(throttler),
            n as u64,
            now,
        ),
        ({
            let throttles = cmd is Some && cmd->0@ == "throttle"@ && bytes is Some
                && text::parsed_signed(
                bytes->0@,
                -0x8000_0000_0000_0000,
                0x7fff_ffff_ffff_ffff,
            ) is Some;
            &&& throttles ==> *final(throttler) == (BandwidthThrottler {
                server_throttle: text::parsed_signed(
                    bytes->0@,
                    -0x8000_0000_0000_0000,
                    0x7fff_ffff_ffff_ffff,
                )->0 as i64,
                ..*old(throttler)
            })
            &&& !throttles && !(action is SendZeros) ==> *final(throttler) == *old(throttler)
        }),
{
    reveal_strlit("speed_test");
    reveal_strlit("throttle");
    assert("speed_test"@.len() == 10 && "throttle"@.len() == 8);
}

/// A gallery is named by its address, or else by its number and its token; an address that
/// is none of a gallery, and one of the two without the other, is refused. An address of a
/// gallery names the number and the token that stand in it.
pub proof fn law_galleries_are_named(
    url: Option<String>,
    id: Option<String>,
    token: Option<String>,
    missing: &'static str,
    named: Result<(String, String), &'static str>,
    address: &str,
    read: Option<(String, String)>,
)
    requires
        call_ensures(requested_gallery, (&url, &id, &token, missing), named),
        url is Some ==> url->0@ == address@,
        call_ensures(archive::ArchiveDownloader::parse_gallery_url, (address,), read),
    ensures
        url is Some && read is Some ==> named is Ok && (named->Ok_0).0@ == (read->0).0@
            && (named->Ok_0).1@ == (read->0).1@,
        url is Some && read is None ==> named is Err && named->Err_0@ == "Invalid gallery URL"@,
        url is None && id is Some && token is Some ==> named is Ok && (named->Ok_0).0@ == id->0@
            && (named->Ok_0).1@ == token->0@,
        url is None && (id is None || token is None) ==> named is Err && named->Err_0@ == missing@,
{
}

/// What is asked for of a gallery is of the gallery that the request names, with the pages
/// and the resolution that it names; the original where it names none that is known.
pub proof fn law_downloads_are_requested(
    params: GalleryDownloadParams,
    archived: ArchiveDownloadParams,
    enabled: bool,
    info: Result<(String, String), &'static str>,
    queued: Result<DownloadRequest, &'static str>,
    archive: Result<ArchiveRequest, &'static str>,
    named: Result<(String, String), &'static str>,
    found: Result<(String, String), &'static str>,
    name: &str,
    resolution: Option<ArchiveResolution>,
)
    requires
        call_ensures(get_gallery_info, (&params,), info),
        call_ensures(queue_gallery_download, (enabled, &params), queued),
        call_ensures(queue_archive_download, (&archived,), archive),
        call_ensures(
            requested_gallery,
            (
                &params.url,
                &params.gallery_id,
                &params.gallery_token,
                "Missing gallery_id or gallery_token",
            ),
            named,
        ),
        call_ensures(
            requested_gallery,
            (
                &archived.url,
                &archived.gallery_id,
                &archived.gallery_token,
                "Missing gallery_id or gallery_token",
            ),
            found,
        ),
        archived.resolution is Some ==> archived.resolution->0@ == name@,
        call_ensures(ArchiveResolution::from_str, (name,), resolution),
    ensures
        info is Ok <==> named is Ok,
        named matches Ok(gallery) ==> (info->Ok_0).0@ == gallery.0@ && (info->Ok_0).1@
            == gallery.1@,
        params.url is None && (params.gallery_id is None || params.gallery_token is None)
            ==> info->Err_0@ == "Missing parameters"@,
        !enabled ==> queued is Err && queued->Err_0@ == "Gallery download is disabled"@,
        enabled && named is Err ==> queued is Err && queued->Err_0@ == named->Err_0@,
        enabled ==> (named matches Ok(gallery) ==> {
            &&& queued is Ok
            &&& (queued->Ok_0).gallery_id@ == gallery.0@
            &&& (queued->Ok_0).gallery_token@ == gallery.1@
            &&& (queued->Ok_0).start_page == params.start_page
            &&& (queued->Ok_0).end_page == params.end_page
            &&& (queued->Ok_0).priority == 5
        }),
        found is Err ==> archive is Err && archive->Err_0@ == found->Err_0@,
        found matches Ok(gallery) ==> {
            &&& archive is Ok
            &&& (archive->Ok_0).gallery_id@ == gallery.0@
            &&& (archive->Ok_0).gallery_token@ == gallery.1@
            &&& (archive->Ok_0).or_token is None
            &&& archived.resolution is Some && resolution is Some ==> (archive->Ok_0).resolution
                == resolution->0
            &&& archived.resolution is None || resolution is None ==> (archive->Ok_0).resolution
                == ArchiveResolution::Original
        },
{
}

/// A list is as long as is asked for, and fifty where that is no number.
pub proof fn law_lists_are_limited(
    params: Vec<(String, String)>,
    n: i64,
    limit: Option<String>,
)
    requires
        call_ensures(list_limit, (&params,), n),
        call_ensures(query_param, (&params, "limit"), limit),
    ensures
        limit is None ==> n == 50,
        limit matches Some(s) ==> (text::parsed_signed(
            s@,
            -0x8000_0000_0000_0000,
            0x7fff_ffff_ffff_ffff,
        ) is None ==> n == 50),
        limit matches Some(s) ==> (text::parsed_signed(
            s@,
            -0x8000_0000_0000_0000,
            0x7fff_ffff_ffff_ffff,
        ) matches Some(asked) ==> n == asked),
{
}

/// The status tells what the configuration, the cache, the metrics and the throttler tell.
pub proof fn law_status_is_told(
    config: Config,
    cache: CacheManager,
    collector: MetricsCollector,
    throttler: &mut BandwidthThrottler,
    other: &mut BandwidthThrottler,
    third: &mut BandwidthThrottler,
    now: u64,
    status: StatusResponse,
    time: i64,
    told: metrics::HahMetrics,
    bandwidth: throttle::BandwidthStats,
    throttled: bool,
)
    requires
        call_ensures(get_status, (&config, &cache, &collector, throttler, now), status),
        call_ensures(MetricsCollector::get_metrics, (&collector, now, time), told),
        *old(throttler) == *old(other),
        *old(throttler) == *old(third),
        call_ensures(BandwidthThrottler::get_stats, (other, now), bandwidth),
        call_ensures(BandwidthThrottler::is_throttled, (third, now), throttled),
    ensures
        status.version@ == "0.1.0"@ && status.client_id@ == config.client_id@,
        status.cache_size_bytes == cache.stats.total_size && status.cache_files
            == cache.files().len(),
        status.cache_hits == cache.stats.hits && status.cache_misses == cache.stats.misses,
        status.bytes_served == cache.stats.bytes_served,
        status.uptime_seconds == told.uptime_seconds,
        status.gallery_download_enabled == config.gallery_download_enabled,
        status.trust == told.trust && status.quality == told.quality,
        status.successful_serves == told.successful_serves && status.failed_serves
            == told.failed_serves,
        status.current_connections == told.current_connections && status.peak_connections
            == told.peak_connections,
        status.bytes_per_second == bandwidth.bytes_per_second && status.bytes_per_hour
            == bandwidth.bytes_per_hour,
        status.is_throttled == throttled,
        status.static_ranges_enabled == config.static_ranges && status.proxy_mode_enabled
            == config.proxy_mode,
{
}

}
