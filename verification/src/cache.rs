//! Cache management: the index of cached files, its accounting, and which files
//! make room for others.
//!
//! Files and the database are the caller's; timestamps are seconds since the
//! epoch.

use crate::config::Config;
use crate::digest;
use crate::text;
use crate::web;
use dashmap::DashMap;
use std::collections::hash_map::RandomState;
use vstd::prelude::*;
use vstd::utf8::encode_utf8;

verus! {

#[derive(Debug, Clone)]
pub enum CacheError {
    NotFound(String),
    Io(String),
    Database(String),
    HashMismatch { expected: String, actual: String },
    CacheFull,
}

impl CacheError {
    pub open spec fn message_text(&self) -> Seq<char> {
        match *self {
            CacheError::NotFound(s) => "File not found: "@ + s@,
            CacheError::Io(s) => "IO error: "@ + s@,
            CacheError::Database(s) => "Database error: "@ + s@,
            CacheError::HashMismatch { expected, actual } => "Invalid hash: expected "@ + expected@
                + ", got "@ + actual@,
            CacheError::CacheFull => "Cache full"@,
        }
    }

    /// The error in words.
    pub fn message(&self) -> (res: String)
        ensures
            res@ == self.message_text(),
    {
        match self {
            CacheError::NotFound(s) => "File not found: ".to_string().concat(s.as_str()),
            CacheError::Io(s) => "IO error: ".to_string().concat(s.as_str()),
            CacheError::Database(s) => "Database error: ".to_string().concat(s.as_str()),
            CacheError::HashMismatch { expected, actual } => {
                let mut m = "Invalid hash: expected ".to_string();
                m.append(expected.as_str());
                m.append(", got ");
                m.append(actual.as_str());
                m
            },
            CacheError::CacheFull => "Cache full".to_string(),
        }
    }
}

/// A file of the cache.
#[derive(Debug)]
pub struct CachedFile {
    pub hash: String,
    pub size: u64,
    pub path: String,
    pub file_type: String,
    pub last_accessed: i64,
    pub hit_count: u64,
}

impl Clone for CachedFile {
    fn clone(&self) -> (r: Self)
        ensures
            r == *self,
    {
        CachedFile {
            hash: self.hash.clone(),
            size: self.size,
            path: self.path.clone(),
            file_type: self.file_type.clone(),
            last_accessed: self.last_accessed,
            hit_count: self.hit_count,
        }
    }
}

#[derive(Debug, Clone, Copy, PartialEq, Eq, Structural)]
pub struct CacheStats {
    pub total_files: u64,
    pub total_size: u64,
    pub hits: u64,
    pub misses: u64,
    pub bytes_served: u64,
}

impl CacheStats {
    pub open spec fn zero() -> CacheStats {
        CacheStats { total_files: 0, total_size: 0, hits: 0, misses: 0, bytes_served: 0 }
    }
}

impl Default for CacheStats {
    fn default() -> (r: Self)
        ensures
            r == CacheStats::zero(),
    {
        CacheStats { total_files: 0, total_size: 0, hits: 0, misses: 0, bytes_served: 0 }
    }
}

// ---------------------------------------------------------------------------
// The table of files
// ---------------------------------------------------------------------------

/// The files that the table holds, by their hashes.
pub uninterp spec fn indexed(index: DashMap<String, CachedFile, RandomState>) -> Map<
    Seq<char>,
    CachedFile,
>;

/// `dashmap::DashMap::new` makes an empty table.
#[verifier::external_body]
fn index_new() -> (res: DashMap<String, CachedFile, RandomState>)
    ensures
        (indexed(res) == Map::<Seq<char>, CachedFile>::empty()),
{
    DashMap::new()
}

/// `dashmap::DashMap::contains_key` says whether there is an entry for the key.
#[verifier::external_body]
fn index_contains(index: &DashMap<String, CachedFile, RandomState>, hash: &str) -> (res: bool)
    ensures
        res == indexed(*index).contains_key(hash@),
{
    index.contains_key(hash)
}

/// `dashmap::DashMap::get` finds the entry for the key; it is handed out as a copy.
#[verifier::external_body]
fn index_get(index: &DashMap<String, CachedFile, RandomState>, hash: &str) -> (res: Option<
    CachedFile,
>)
    ensures
        (match res {
            Some(file) => indexed(*index).contains_key(hash@) && file == indexed(*index)[hash@],
            None => !indexed(*index).contains_key(hash@),
        }),
{
    index.get(hash).map(|entry| entry.value().clone())
}

/// `dashmap::DashMap::insert` sets the entry for the key.
#[verifier::external_body]
fn index_insert(
    index: &mut DashMap<String, CachedFile, RandomState>,
    hash: String,
    file: CachedFile,
)
    ensures
        indexed(*final(index)) == indexed(*old(index)).insert(hash@, file),
{
    index.insert(hash, file);
}

/// `dashmap::DashMap::remove` takes the entry for the key out.
#[verifier::external_body]
fn index_remove(index: &mut DashMap<String, CachedFile, RandomState>, hash: &str) -> (res: Option<
    CachedFile,
>)
    ensures
        indexed(*final(index)) == indexed(*old(index)).remove(hash@),
        (match res {
            Some(file) => indexed(*old(index)).contains_key(hash@) && file == indexed(
                *old(index),
            )[hash@],
            None => !indexed(*old(index)).contains_key(hash@),
        }),
{
    index.remove(hash).map(|entry| entry.1)
}

/// `dashmap::DashMap::len` counts the entries.
#[verifier::external_body]
fn index_len(index: &DashMap<String, CachedFile, RandomState>) -> (res: usize)
    ensures
        res == indexed(*index).len(),
{
    index.len()
}

// ---------------------------------------------------------------------------
// Eviction
// ---------------------------------------------------------------------------

/// Which of the candidates make room: those that are indexed, in turn, until
/// their sizes together reach `needed`.
pub open spec fn evicted(
    files: Set<Seq<char>>,
    candidates: Seq<(Seq<char>, i64)>,
    freed: u64,
    needed: u64,
) -> Seq<(Seq<char>, i64)>
    decreases candidates.len(),
{
    if candidates.len() == 0 || freed >= needed {
        Seq::empty()
    } else {
        let (hash, size) = candidates.first();
        let rest = candidates.drop_first();
        if files.contains(hash) {
            seq![(hash, size)] + evicted(
                files.remove(hash),
                rest,
                freed.wrapping_add(size as u64),
                needed,
            )
        } else {
            evicted(files, rest, freed, needed)
        }
    }
}

pub open spec fn candidate_views(candidates: Seq<(String, i64)>) -> Seq<(Seq<char>, i64)> {
    candidates.map_values(|c: (String, i64)| (c.0@, c.1))
}

// ---------------------------------------------------------------------------
// The manager
// ---------------------------------------------------------------------------

/// A row of the table of cached files, and whether its file is still there.
#[derive(Debug, Clone)]
pub struct IndexRow {
    pub hash: String,
    pub size: i64,
    pub path: String,
    pub file_type: String,
    pub last_accessed: i64,
    pub hit_count: i64,
    pub exists: bool,
}

impl IndexRow {
    /// The file that the row stands for.
    pub open spec fn file(&self) -> CachedFile {
        CachedFile {
            hash: self.hash,
            size: self.size as u64,
            path: self.path,
            file_type: self.file_type,
            last_accessed: self.last_accessed,
            hit_count: self.hit_count as u64,
        }
    }
}

/// The files, their count and their sizes together, of the rows whose file is
/// still there.
pub open spec fn loaded(rows: Seq<IndexRow>, before: Map<Seq<char>, CachedFile>) -> (
    Map<Seq<char>, CachedFile>,
    u64,
    u64,
)
    decreases rows.len(),
{
    if rows.len() == 0 {
        (before, 0, 0)
    } else {
        let (files, count, size) = loaded(rows.drop_last(), before);
        let row = rows.last();
        if row.exists {
            (
                files.insert(row.hash@, row.file()),
                count.wrapping_add(1),
                size.wrapping_add(row.size as u64),
            )
        } else {
            (files, count, size)
        }
    }
}

/// The files of the cache, by their hashes.
pub struct FileIndex {
    table: DashMap<String, CachedFile, RandomState>,
}

impl View for FileIndex {
    type V = Map<Seq<char>, CachedFile>;

    closed spec fn view(&self) -> Map<Seq<char>, CachedFile> {
        indexed(self.table)
    }
}

/// The hash and the size of data whose hash has been checked.
pub struct CheckedFile {
    hash: String,
    size: u64,
    data: Ghost<Seq<u8>>,
}

impl CheckedFile {
    #[verifier::type_invariant]
    spec fn inv(self) -> bool {
        self.hash@ == digest::sha1_hex(self.data@) && self.size == self.data@.len()
    }

    /// The data that were checked.
    pub closed spec fn data(&self) -> Seq<u8> {
        self.data@
    }

    /// The hash of the data.
    pub fn hash(&self) -> (r: &str)
        ensures
            r@ == digest::sha1_hex(self.data()),
    {
        proof {
            use_type_invariant(self);
        }
        self.hash.as_str()
    }

    /// The size of the data.
    pub fn size(&self) -> (r: u64)
        ensures
            r == self.data().len(),
    {
        proof {
            use_type_invariant(self);
        }
        self.size
    }
}

/// The cache: an index of its files and its statistics.
pub struct CacheManager {
    pub config: Config,
    pub file_index: FileIndex,
    pub total_size: u64,
    pub stats: CacheStats,
}

impl CacheManager {
    /// The files of the cache, by their hashes.
    pub open spec fn files(&self) -> Map<Seq<char>, CachedFile> {
        self.file_index@
    }

    /// Everything but the index is as in `before`.
    pub open spec fn same_but_files(&self, before: &CacheManager) -> bool {
        *self == (CacheManager { file_index: self.file_index, ..*before })
    }

    /// The size of the file that is indexed under this hash, none where there is none.
    pub open spec fn size_under(&self, hash: Seq<char>) -> u64 {
        if self.files().contains_key(hash) {
            self.files()[hash].size
        } else {
            0
        }
    }

    /// The total size once a file of this size is indexed under this hash, in place of
    /// the one that is there.
    pub open spec fn total_with(&self, hash: Seq<char>, size: int) -> int {
        self.total_size.saturating_sub(self.size_under(hash)) + size
    }

    /// The bytes to free for a file of this size that does not fit: as many as it has,
    /// or more in a cache that is beyond its size already.
    pub open spec fn needed_for(&self, size: int) -> int {
        let excess = self.total_size + size - self.config.cache_size_bytes;
        if excess > size {
            excess
        } else {
            size
        }
    }

    /// This is the cache `before` with one file put into its index. A file that was
    /// indexed under the same hash makes place for it, in the accounts too.
    pub open spec fn stored_into(&self, before: &CacheManager, file: CachedFile) -> bool {
        let hash = file.hash@;
        &&& self.files() == before.files().insert(hash, file)
        &&& self.total_size == before.total_with(hash, file.size as int)
        &&& self.stats == (CacheStats {
            total_files: if before.files().contains_key(hash) {
                before.stats.total_files
            } else {
                before.stats.total_files.wrapping_add(1)
            },
            total_size: before.stats.total_size.wrapping_sub(before.size_under(hash)).wrapping_add(
                file.size,
            ),
            ..before.stats
        })
        &&& self.config == before.config
    }

    /// An empty cache.
    pub fn new(config: Config) -> (r: Self)
        ensures
            r.config == config,
            r.files() == Map::<Seq<char>, CachedFile>::empty(),
            r.total_size == 0,
            r.stats == CacheStats::zero(),
            r.accounted(),
    {
        CacheManager {
            config,
            file_index: FileIndex { table: index_new() },
            total_size: 0,
            stats: CacheStats::default(),
        }
    }

    /// Load the index from the rows of the database.
    pub fn load_cache_index(&mut self, rows: Vec<IndexRow>)
        ensures
            ({
                let (files, count, size) = loaded(rows@, old(self).files());
                &&& final(self).files() == files
                &&& final(self).total_size == size
                &&& final(self).stats == (CacheStats {
                    total_files: count,
                    total_size: size,
                    ..old(self).stats
                })
                &&& final(self).config == old(self).config
            }),
    {
        let mut total_size: u64 = 0;
        let mut file_count: u64 = 0;
        let mut i: usize = 0;
        proof {
            assert(rows@.take(0) =~= Seq::empty());
        }
        while i < rows.len()
            invariant
                i <= rows.len(),
                (self.files(), file_count, total_size) == loaded(
                    rows@.take(i as int),
                    old(self).files(),
                ),
                self.stats == old(self).stats,
                self.config == old(self).config,
            decreases rows.len() - i,
        {
            let row = &rows[i];
            proof {
                assert(rows@.take(i + 1).drop_last() =~= rows@.take(i as int));
            }
            if row.exists {
                let file = CachedFile {
                    hash: row.hash.clone(),
                    size: #[verifier::truncate] (row.size as u64),
                    path: row.path.clone(),
                    file_type: row.file_type.clone(),
                    last_accessed: row.last_accessed,
                    hit_count: #[verifier::truncate] (row.hit_count as u64),
                };
                total_size = total_size.wrapping_add(file.size);
                file_count = file_count.wrapping_add(1);
                index_insert(&mut self.file_index.table, row.hash.clone(), file);
            }
            i = i + 1;
        }
        proof {
            assert(rows@.take(i as int) =~= rows@);
        }
        self.total_size = total_size;
        self.stats.total_files = file_count;
        self.stats.total_size = total_size;
    }

    /// The directory, below the cache directory, and the name that a file is
    /// stored under: the first two bytes of the hash keep directories small.
    pub fn get_file_path(&self, hash: &str) -> (r: (String, String))
        requires
            text::byte_len(hash@) >= 2 ==> text::byte_prefix(hash@, 2) is Some,
        ensures
            r.0@ == (if text::byte_len(hash@) >= 2 {
                text::byte_prefix(hash@, 2)->0
            } else {
                hash@
            }),
            r.1@ == hash@,
    {
        let directory = if text::byte_length(hash) >= 2 {
            match text::prefix_of_bytes(hash, 2) {
                Some(prefix) => prefix,
                None => hash.to_string(),
            }
        } else {
            hash.to_string()
        };
        (directory, hash.to_string())
    }

    /// Check if a file exists in the cache.
    pub fn has_file(&self, hash: &str) -> (r: bool)
        ensures
            r == self.files().contains_key(hash@),
    {
        index_contains(&self.file_index.table, hash)
    }

    /// Get a file from the cache. A hit is counted and dated.
    pub fn get_file(&mut self, hash: &str, now: i64) -> (r: Result<Option<CachedFile>, CacheError>)
        ensures
            r is Ok,
            final(self).config == old(self).config,
            final(self).total_size == old(self).total_size,
            match r->Ok_0 {
                Some(file) => {
                    let before = old(self).files()[hash@];
                    &&& old(self).files().contains_key(hash@)
                    &&& file == (CachedFile {
                        last_accessed: now,
                        hit_count: before.hit_count.wrapping_add(1),
                        ..before
                    })
                    &&& final(self).files() == old(self).files().insert(hash@, file)
                    &&& final(self).stats == (CacheStats {
                        hits: old(self).stats.hits.wrapping_add(1),
                        bytes_served: old(self).stats.bytes_served.wrapping_add(before.size),
                        ..old(self).stats
                    })
                },
                None => {
                    &&& !old(self).files().contains_key(hash@)
                    &&& final(self).files() == old(self).files()
                    &&& final(self).stats == (CacheStats {
                        misses: old(self).stats.misses.wrapping_add(1),
                        ..old(self).stats
                    })
                },
            },
            old(self).accounted() ==> final(self).accounted(),
    {
        proof {
            if self.files().contains_key(hash@) && self.files().dom().finite() {
                lemma_sizes_remove(self.files(), hash@);
            }
        }
        match index_get(&self.file_index.table, hash) {
            Some(found) => {
                let file = CachedFile {
                    hash: found.hash,
                    size: found.size,
                    path: found.path,
                    file_type: found.file_type,
                    last_accessed: now,
                    hit_count: found.hit_count.wrapping_add(1),
                };
                self.stats.hits = self.stats.hits.wrapping_add(1);
                self.stats.bytes_served = self.stats.bytes_served.wrapping_add(file.size);
                proof {
                    if self.files().dom().finite() {
                        lemma_sizes_insert(self.files(), hash@, file);
                    }
                }
                index_insert(&mut self.file_index.table, hash.to_string(), file.clone());
                Ok(Some(file))
            },
            None => {
                self.stats.misses = self.stats.misses.wrapping_add(1);
                Ok(None)
            },
        }
    }

    fn indexed_size(&self, hash: &str) -> (size: u64)
        ensures
            size == self.size_under(hash@),
    {
        match index_get(&self.file_index.table, hash) {
            Some(file) => file.size,
            None => 0,
        }
    }

    /// Whether a file of this size can be indexed within the size of the cache.
    pub fn fits(&self, hash: &str, size: u64) -> (r: bool)
        ensures
            r == (self.total_with(hash@, size as int) <= self.config.cache_size_bytes),
    {
        let kept: u64 = self.total_size.saturating_sub(self.indexed_size(hash));
        kept as u128 + size as u128 <= self.config.cache_size_bytes as u128
    }

    /// Before a file is stored: its hash has to be that of the data, and the cache as
    /// large as the file. The bytes that have to be freed first, where it does not fit.
    pub fn prepare_store(&self, hash: &str, data: &[u8]) -> (r: Result<
        (CheckedFile, Option<u64>),
        CacheError,
    >)
        ensures
            match r {
                Ok((checked, needed)) => {
                    &&& hash@ == digest::sha1_hex(data@)
                    &&& checked.data() == data@
                    &&& data@.len() <= self.config.cache_size_bytes
                    &&& match needed {
                        Some(bytes) => {
                            &&& self.total_with(hash@, data@.len() as int)
                                > self.config.cache_size_bytes
                            &&& bytes == self.needed_for(data@.len() as int)
                        },
                        None => self.total_with(hash@, data@.len() as int)
                            <= self.config.cache_size_bytes,
                    }
                },
                Err(CacheError::HashMismatch { expected, actual }) => {
                    &&& hash@ != digest::sha1_hex(data@)
                    &&& expected@ == hash@
                    &&& actual@ == digest::sha1_hex(data@)
                },
                Err(e) => {
                    &&& hash@ == digest::sha1_hex(data@)
                    &&& data@.len() > self.config.cache_size_bytes
                    &&& e is CacheFull
                },
            },
    {
        let actual = self.compute_hash(data);
        if !text::same(actual.as_str(), hash) {
            return Err(CacheError::HashMismatch { expected: hash.to_string(), actual });
        }
        let size: u64 = data.len() as u64;
        if size > self.config.cache_size_bytes {
            return Err(CacheError::CacheFull);
        }
        let checked = CheckedFile { hash: actual, size, data: Ghost(data@) };
        if self.fits(hash, size) {
            return Ok((checked, None));
        }
        let room: u64 = self.config.cache_size_bytes - size;
        if self.total_size > room && self.total_size - room > size {
            Ok((checked, Some(self.total_size - room)))
        } else {
            Ok((checked, Some(size)))
        }
    }

    /// Put a file that lies at `path`, and whose data were checked, into the index. Where
    /// it does not fit, whatever was evicted for it, the cache is full and stays as it is.
    pub fn store_file(&mut self, checked: &CheckedFile, path: &str, file_type: &str, now: i64) -> (r:
        Result<CachedFile, CacheError>)
        ensures
            match r {
                Ok(file) => {
                    &&& old(self).total_with(
                        digest::sha1_hex(checked.data()),
                        checked.data().len() as int,
                    ) <= old(self).config.cache_size_bytes
                    &&& file.hash@ == digest::sha1_hex(checked.data())
                    &&& file.size == checked.data().len()
                    &&& file.path@ == path@
                    &&& file.file_type@ == file_type@
                    &&& file.last_accessed == now
                    &&& file.hit_count == 0
                    &&& final(self).stored_into(old(self), file)
                    &&& final(self).total_size <= final(self).config.cache_size_bytes
                },
                Err(e) => {
                    &&& old(self).total_with(
                        digest::sha1_hex(checked.data()),
                        checked.data().len() as int,
                    ) > old(self).config.cache_size_bytes
                    &&& e is CacheFull
                    &&& *final(self) == *old(self)
                },
            },
            old(self).accounted() ==> final(self).accounted(),
    {
        let hash = checked.hash();
        let size: u64 = checked.size();
        if !self.fits(hash, size) {
            return Err(CacheError::CacheFull);
        }
        let file = CachedFile {
            hash: hash.to_string(),
            size,
            path: path.to_string(),
            file_type: file_type.to_string(),
            last_accessed: now,
            hit_count: 0,
        };
        proof {
            lemma_storing_keeps_accounts(self.files(), hash@, file);
        }
        let known = self.has_file(hash);
        let replaced: u64 = self.indexed_size(hash);
        index_insert(&mut self.file_index.table, hash.to_string(), file.clone());
        self.total_size = self.total_size.saturating_sub(replaced) + size;
        if !known {
            self.stats.total_files = self.stats.total_files.wrapping_add(1);
        }
        self.stats.total_size = self.stats.total_size.wrapping_sub(replaced).wrapping_add(size);
        Ok(file)
    }

    /// Choose the files that make room for `needed_bytes`. The candidates come
    /// with their sizes, the least recently used first.
    pub fn evict_files(&self, needed_bytes: u64, candidates: &Vec<(String, i64)>) -> (r: Vec<
        (String, i64),
    >)
        ensures
            candidate_views(r@) == evicted(
                self.files().dom(),
                candidate_views(candidates@),
                0,
                needed_bytes,
            ),
    {
        let ghost all = candidate_views(candidates@);
        let ghost mut left = self.files().dom();
        let mut r: Vec<(String, i64)> = Vec::new();
        let mut taken: Vec<String> = Vec::new();
        let mut freed: u64 = 0;
        let mut i: usize = 0;
        proof {
            assert(all.skip(0) =~= all);
            assert(candidate_views(r@) + evicted(left, all, 0, needed_bytes) =~= evicted(
                left,
                all,
                0,
                needed_bytes,
            ));
            assert(text::texts(taken@).to_set() =~= Set::empty());
            assert(left =~= self.files().dom().difference(text::texts(taken@).to_set()));
        }
        while i < candidates.len() && freed < needed_bytes
            invariant
                i <= candidates.len(),
                all == candidate_views(candidates@),
                left == self.files().dom().difference(text::texts(taken@).to_set()),
                candidate_views(r@) + evicted(left, all.skip(i as int), freed, needed_bytes)
                    == evicted(self.files().dom(), all, 0, needed_bytes),
            decreases candidates.len() - i,
        {
            let hash = &candidates[i].0;
            let size: i64 = candidates[i].1;
            proof {
                assert(all.skip(i as int).drop_first() =~= all.skip(i + 1));
                assert(all.skip(i as int).first() == (hash@, size));
            }
            if self.has_file(hash.as_str()) && !text::is_listed(&taken, hash.as_str()) {
                let ghost before = candidate_views(r@);
                let ghost names = text::texts(taken@);
                r.push((hash.clone(), size));
                taken.push(hash.clone());
                proof {
                    let rest = evicted(
                        left.remove(hash@),
                        all.skip(i + 1),
                        freed.wrapping_add(size as u64),
                        needed_bytes,
                    );
                    assert(candidate_views(r@) =~= before.push((hash@, size)));
                    assert(before.push((hash@, size)) + rest =~= before + (seq![(hash@, size)]
                        + rest));
                    assert(text::texts(taken@) =~= names.push(hash@));
                    text::lemma_push_to_set(names, hash@);
                    assert(left.remove(hash@) =~= self.files().dom().difference(
                        text::texts(taken@).to_set(),
                    ));
                    left = left.remove(hash@);
                }
                freed = freed.wrapping_add(#[verifier::truncate] (size as u64));
            }
            i = i + 1;
        }
        proof {
            assert(evicted(left, all.skip(i as int), freed, needed_bytes) =~= Seq::empty());
            assert(candidate_views(r@) + Seq::empty() =~= candidate_views(r@));
        }
        r
    }

    /// Take a file that is evicted out of the index.
    pub fn evict_file(&mut self, hash: &str) -> (r: Option<CachedFile>)
        ensures
            final(self).same_but_files(old(self)),
            final(self).files() == old(self).files().remove(hash@),
            match r {
                Some(file) => old(self).files().contains_key(hash@) && file == old(
                    self,
                ).files()[hash@],
                None => !old(self).files().contains_key(hash@),
            },
    {
        index_remove(&mut self.file_index.table, hash)
    }

    /// Count the size of an evicted file as freed.
    pub fn count_freed(&mut self, size: i64)
        ensures
            *final(self) == (CacheManager {
                total_size: old(self).total_size.wrapping_sub(size as u64),
                ..*old(self)
            }),
    {
        self.total_size = self.total_size.wrapping_sub(#[verifier::truncate] (size as u64));
    }

    /// All files have been evicted that were to be.
    pub fn end_eviction(&mut self)
        ensures
            *final(self) == (CacheManager {
                stats: CacheStats { total_size: old(self).total_size, ..old(self).stats },
                ..*old(self)
            }),
    {
        self.stats.total_size = self.total_size;
    }

    /// Compute the SHA-1 hash of data, in hexadecimal.
    pub fn compute_hash(&self, data: &[u8]) -> (r: String)
        ensures
            r@ == digest::sha1_hex(data@),
            r@.len() == 40,
    {
        let hash = digest::sha1_digest(data);
        let mut r: String = String::new();
        let mut i: usize = 0;
        while i < hash.len()
            invariant
                i <= hash.len(),
                hash@ == digest::sha1_of(data@),
                hash@.len() == 20,
                r@ == digest::hex_of(hash@.take(i as int)),
            decreases hash.len() - i,
        {
            let byte: u8 = hash[i];
            r.push(digest::hex_char_of(byte / 16));
            r.push(digest::hex_char_of(byte % 16));
            i = i + 1;
            proof {
                assert(r@ =~= digest::hex_of(hash@.take(i as int)));
            }
        }
        proof {
            assert(hash@.take(i as int) =~= hash@);
        }
        r
    }

    /// Compute the SHA-1 hash of data, as bytes.
    pub fn compute_hash_bytes(&self, data: &[u8]) -> (r: [u8; 20])
        ensures
            r@ == digest::sha1_of(data@),
    {
        let hash = digest::sha1_digest(data);
        let mut r: [u8; 20] = [0u8;20];
        let mut i: usize = 0;
        while i < 20
            invariant
                i <= 20,
                hash@.len() == 20,
                forall|j: int| 0 <= j < i ==> r@[j] == hash@[j],
            decreases 20 - i,
        {
            r[i] = hash[i];
            i = i + 1;
        }
        proof {
            assert(r@ =~= hash@);
        }
        r
    }

    /// Get current cache statistics.
    pub fn get_stats(&self) -> (r: CacheStats)
        ensures
            r == self.stats,
    {
        self.stats
    }

    /// Get the total cached size in bytes.
    pub fn get_total_size(&self) -> (n: u64)
        ensures
            n == self.total_size,
    {
        self.total_size
    }

    /// Get the number of cached files.
    pub fn get_file_count(&self) -> (n: usize)
        ensures
            n == self.files().len(),
    {
        index_len(&self.file_index.table)
    }

    /// Whether a file found in the cache directory belongs there and is not
    /// indexed: its name is forty bytes long, as a hash is.
    pub fn is_unindexed(&self, name: &str) -> (r: bool)
        ensures
            r == (!self.files().contains_key(name@) && text::byte_len(name@) == 40),
    {
        !index_contains(&self.file_index.table, name) && text::byte_length(name) == 40
    }

    /// Put a file that was found on disk into the index (recovery).
    pub fn recover_file(&mut self, name: &str, size: u64, path: &str, now: i64) -> (r: CachedFile)
        ensures
            r.hash@ == name@,
            r.size == size,
            r.path@ == path@,
            r.file_type@ == "unknown"@,
            r.last_accessed == now,
            r.hit_count == 0,
            final(self).files() == old(self).files().insert(name@, r),
            final(self).total_size == old(self).total_size.saturating_sub(
                old(self).size_under(name@),
            ).wrapping_add(size),
            final(self).stats == old(self).stats,
            final(self).config == old(self).config,
            old(self).accounted() && old(self).total_with(name@, size as int) <= u64::MAX
                ==> final(self).accounted(),
    {
        let file = CachedFile {
            hash: name.to_string(),
            size,
            path: path.to_string(),
            file_type: "unknown".to_string(),
            last_accessed: now,
            hit_count: 0,
        };
        proof {
            lemma_storing_keeps_accounts(self.files(), name@, file);
        }
        let replaced: u64 = self.indexed_size(name);
        self.total_size = self.total_size.saturating_sub(replaced).wrapping_add(size);
        index_insert(&mut self.file_index.table, name.to_string(), file.clone());
        file
    }
}

// ---------------------------------------------------------------------------
// Laws
// ---------------------------------------------------------------------------

/// The sizes of all files together.
pub open spec fn sizes(files: Map<Seq<char>, CachedFile>) -> nat
    decreases files.dom().len(),
{
    if files.dom().finite() && files.dom().len() > 0 {
        let hash = files.dom().choose();
        files[hash].size as nat + sizes(files.remove(hash))
    } else {
        0
    }
}

proof fn lemma_sizes_remove(files: Map<Seq<char>, CachedFile>, hash: Seq<char>)
    requires
        files.dom().finite(),
        files.contains_key(hash),
    ensures
        sizes(files) == files[hash].size + sizes(files.remove(hash)),
    decreases files.dom().len(),
{
    let chosen = files.dom().choose();
    assert(files.dom().contains(hash));
    assert(files.dom().len() > 0);
    if chosen != hash {
        lemma_sizes_remove(files.remove(chosen), hash);
        assert(files.remove(hash).dom().contains(chosen));
        lemma_sizes_remove(files.remove(hash), chosen);
        assert(files.remove(chosen).remove(hash) =~= files.remove(hash).remove(chosen));
    }
}

proof fn lemma_sizes_insert(files: Map<Seq<char>, CachedFile>, hash: Seq<char>, file: CachedFile)
    requires
        files.dom().finite(),
    ensures
        sizes(files.insert(hash, file)) == sizes(files.remove(hash)) + file.size,
{
    lemma_sizes_remove(files.insert(hash, file), hash);
    assert(files.insert(hash, file).remove(hash) =~= files.remove(hash));
}

impl CacheManager {
    /// The total size is that of the files in the index.
    pub open spec fn accounted(&self) -> bool {
        self.files().dom().finite() && self.total_size == sizes(self.files())
    }
}

/// A file adds its size, and takes that of the one it replaces.
proof fn lemma_storing_keeps_accounts(
    files: Map<Seq<char>, CachedFile>,
    hash: Seq<char>,
    file: CachedFile,
)
    ensures
        files.dom().finite() ==> sizes(files.insert(hash, file)) == sizes(files) + file.size - (
        if files.contains_key(hash) {
            files[hash].size as int
        } else {
            0
        }),
        files.dom().finite() && files.contains_key(hash) ==> files[hash].size <= sizes(files),
{
    if files.dom().finite() {
        lemma_sizes_insert(files, hash, file);
        if files.contains_key(hash) {
            lemma_sizes_remove(files, hash);
        } else {
            assert(files.remove(hash) =~= files);
        }
    }
}

/// The total size is that of the files in the index, again and again: a cache that is
/// accounted for still is after a file has been stored, under a new hash or under one
/// that is indexed already.
pub proof fn law_storing_keeps_accounts(
    before: CacheManager,
    after: CacheManager,
    file: CachedFile,
)
    requires
        before.accounted(),
        after.stored_into(&before, file),
    ensures
        after.accounted(),
        after.total_size == before.total_size - before.size_under(file.hash@) + file.size,
        after.files().len() == before.files().len() + if before.files().contains_key(file.hash@) {
            0int
        } else {
            1
        },
{
    lemma_storing_keeps_accounts(before.files(), file.hash@, file);
}

/// A file that is stored twice counts once: the total size, the number of files and
/// the statistics are as after the first time.
pub proof fn law_storing_again_changes_no_count(
    before: CacheManager,
    once: CacheManager,
    twice: CacheManager,
    first: CachedFile,
    second: CachedFile,
)
    requires
        once.stored_into(&before, first),
        twice.stored_into(&once, second),
        first.hash@ == second.hash@,
        first.size == second.size,
    ensures
        twice.total_size == once.total_size,
        twice.files().len() == once.files().len(),
        twice.files().dom() == once.files().dom(),
        twice.stats == once.stats,
{
    assert(twice.files().dom() =~= once.files().dom());
}

/// A file that is evicted, and whose size is counted as freed, takes its size from
/// the total.
pub proof fn law_evicting_keeps_accounts(
    before: CacheManager,
    after: CacheManager,
    hash: Seq<char>,
    size: i64,
)
    requires
        before.accounted(),
        before.files().contains_key(hash),
        size >= 0,
        before.files()[hash].size == size,
        after.files() == before.files().remove(hash),
        after.total_size == before.total_size.wrapping_sub(size as u64),
    ensures
        after.accounted(),
{
    lemma_sizes_remove(before.files(), hash);
}

/// The sizes of candidates together.
pub open spec fn candidate_sizes(candidates: Seq<(Seq<char>, i64)>) -> int
    decreases candidates.len(),
{
    if candidates.len() == 0 {
        0
    } else {
        candidates.first().1 + candidate_sizes(candidates.drop_first())
    }
}

/// Candidates are evicted, the least recently used first, until enough is freed:
/// what is evicted is enough, or else all candidates that are in the cache were
/// evicted; and it would not be enough without the last of them.
pub proof fn law_eviction_frees_just_enough(
    files: Set<Seq<char>>,
    candidates: Seq<(Seq<char>, i64)>,
    freed: u64,
    needed: u64,
)
    requires
        forall|i: int| 0 <= i < candidates.len() ==> (#[trigger] candidates[i]).1 >= 0,
        freed + candidate_sizes(candidates) <= u64::MAX,
    ensures
        ({
            let out = evicted(files, candidates, freed, needed);
            &&& freed + candidate_sizes(out) >= needed || forall|i: int|
                0 <= i < candidates.len() && files.contains((#[trigger] candidates[i]).0)
                    ==> exists|j: int| 0 <= j < out.len() && out[j].0 == candidates[i].0
            &&& out.len() > 0 ==> freed + candidate_sizes(out.drop_last()) < needed
            &&& forall|j: int| 0 <= j < out.len() ==> candidates.contains(#[trigger] out[j])
        }),
    decreases candidates.len(),
{
    let out = evicted(files, candidates, freed, needed);
    if candidates.len() > 0 && freed < needed {
        let (hash, size) = candidates.first();
        let rest = candidates.drop_first();
        assert(candidates[0] == (hash, size));
        assert forall|i: int| 0 <= i < rest.len() implies (#[trigger] rest[i]).1 >= 0 by {
            assert(rest[i] == candidates[i + 1]);
        }
        lemma_candidate_sizes(rest);
        if files.contains(hash) {
            let more = freed.wrapping_add(size as u64);
            assert(more == freed + size);
            law_eviction_frees_just_enough(files.remove(hash), rest, more, needed);
            let tail = evicted(files.remove(hash), rest, more, needed);
            assert(out.drop_first() =~= tail);
            assert(candidate_sizes(out) == size + candidate_sizes(tail));
            assert forall|i: int|
                0 <= i < candidates.len() && files.contains((#[trigger] candidates[i]).0) && !(freed
                    + candidate_sizes(out) >= needed) implies exists|j: int|
                0 <= j < out.len() && out[j].0 == candidates[i].0 by {
                if candidates[i].0 == hash {
                    assert(out[0].0 == hash);
                } else {
                    assert(rest[i - 1] == candidates[i]);
                    let j = choose|j: int| 0 <= j < tail.len() && tail[j].0 == rest[i - 1].0;
                    assert(out[j + 1] == tail[j]);
                }
            }
            if tail.len() > 0 {
                assert(out.drop_last().drop_first() =~= tail.drop_last());
                assert(out.drop_last().first() == (hash, size));
            } else {
                assert(out.drop_last() =~= Seq::empty());
            }
            assert forall|j: int| 0 <= j < out.len() implies candidates.contains(
                #[trigger] out[j],
            ) by {
                if j > 0 {
                    assert(out[j] == tail[j - 1]);
                    let k = choose|k: int| 0 <= k < rest.len() && rest[k] == tail[j - 1];
                    assert(candidates[k + 1] == out[j]);
                }
            }
        } else {
            law_eviction_frees_just_enough(files, rest, freed, needed);
            assert forall|i: int|
                0 <= i < candidates.len() && files.contains((#[trigger] candidates[i]).0) && !(freed
                    + candidate_sizes(out) >= needed) implies exists|j: int|
                0 <= j < out.len() && out[j].0 == candidates[i].0 by {
                assert(rest[i - 1] == candidates[i]);
            }
            assert forall|j: int| 0 <= j < out.len() implies candidates.contains(
                #[trigger] out[j],
            ) by {
                let k = choose|k: int| 0 <= k < rest.len() && rest[k] == out[j];
                assert(candidates[k + 1] == out[j]);
            }
        }
    }
}

proof fn lemma_candidate_sizes(candidates: Seq<(Seq<char>, i64)>)
    requires
        forall|i: int| 0 <= i < candidates.len() ==> (#[trigger] candidates[i]).1 >= 0,
    ensures
        candidate_sizes(candidates) >= 0,
    decreases candidates.len(),
{
    if candidates.len() > 0 {
        let rest = candidates.drop_first();
        assert forall|i: int| 0 <= i < rest.len() implies (#[trigger] rest[i]).1 >= 0 by {
            assert(rest[i] == candidates[i + 1]);
        }
        lemma_candidate_sizes(rest);
        assert(candidates[0].1 >= 0);
    }
}

/// The sizes of the rows together whose file is still there.
pub open spec fn row_sizes(rows: Seq<IndexRow>) -> int
    decreases rows.len(),
{
    if rows.len() == 0 {
        0
    } else {
        row_sizes(rows.drop_last()) + if rows.last().exists {
            rows.last().size as int
        } else {
            0
        }
    }
}

/// Loading the rows of a table whose hashes are all different into an empty cache
/// gives an index that is accounted for: its total size is that of its files, and
/// its count their number.
pub proof fn law_loaded_files_are_accounted(rows: Seq<IndexRow>)
    requires
        forall|i: int| 0 <= i < rows.len() ==> (#[trigger] rows[i]).size >= 0,
        forall|i: int, j: int|
            0 <= i < j < rows.len() ==> (#[trigger] rows[i]).hash@ != (#[trigger] rows[j]).hash@,
        row_sizes(rows) <= u64::MAX,
        rows.len() <= u64::MAX,
    ensures
        ({
            let (files, count, size) = loaded(rows, Map::<Seq<char>, CachedFile>::empty());
            &&& files.dom().finite()
            &&& size == sizes(files)
            &&& size == row_sizes(rows)
            &&& count == files.len()
            &&& count <= rows.len()
            &&& forall|hash: Seq<char>| #[trigger]
                files.contains_key(hash) <==> exists|i: int|
                    0 <= i < rows.len() && (#[trigger] rows[i]).hash@ == hash && rows[i].exists
        }),
    decreases rows.len(),
{
    let empty = Map::<Seq<char>, CachedFile>::empty();
    let (files, count, size) = loaded(rows, empty);
    if rows.len() > 0 {
        let rest = rows.drop_last();
        let row = rows.last();
        assert(row.size >= 0);
        assert forall|i: int| 0 <= i < rest.len() implies (#[trigger] rest[i]).size >= 0 by {
            assert(rest[i] == rows[i]);
        }
        assert forall|i: int, j: int| 0 <= i < j < rest.len() implies (#[trigger] rest[i]).hash@ != (
        #[trigger] rest[j]).hash@ by {
            assert(rest[i] == rows[i] && rest[j] == rows[j]);
        }
        law_loaded_files_are_accounted(rest);
        let (files0, count0, size0) = loaded(rest, empty);
        if files0.contains_key(row.hash@) {
            let i = choose|i: int|
                0 <= i < rest.len() && (#[trigger] rest[i]).hash@ == row.hash@ && rest[i].exists;
            assert(rest[i] == rows[i]);
            assert(rows[rows.len() - 1] == row);
        }
        if row.exists {
            lemma_storing_keeps_accounts(files0, row.hash@, row.file());
        }
        assert forall|hash: Seq<char>| #[trigger]
            files.contains_key(hash) implies exists|i: int|
            0 <= i < rows.len() && (#[trigger] rows[i]).hash@ == hash && rows[i].exists by {
            if files0.contains_key(hash) {
                let i = choose|i: int|
                    0 <= i < rest.len() && (#[trigger] rest[i]).hash@ == hash && rest[i].exists;
                assert(rows[i] == rest[i]);
            } else {
                assert(rows[rows.len() - 1] == row);
            }
        }
        assert forall|hash: Seq<char>|
            (exists|i: int|
                0 <= i < rows.len() && (#[trigger] rows[i]).hash@ == hash
                    && rows[i].exists) implies #[trigger] files.contains_key(hash) by {
            let i = choose|i: int|
                0 <= i < rows.len() && (#[trigger] rows[i]).hash@ == hash && rows[i].exists;
            if i < rest.len() {
                assert(rest[i] == rows[i]);
                assert(files0.contains_key(hash));
            }
        }
    }
}

/// Which of the candidates are in the cache.
pub open spec fn cached_of(
    candidates: Seq<(Seq<char>, i64)>,
    files: Set<Seq<char>>,
) -> Seq<(Seq<char>, i64)> {
    candidates.filter(|c: (Seq<char>, i64)| files.contains(c.0))
}

proof fn lemma_cached_of_others(
    candidates: Seq<(Seq<char>, i64)>,
    files: Set<Seq<char>>,
    hash: Seq<char>,
)
    requires
        forall|i: int| 0 <= i < candidates.len() ==> (#[trigger] candidates[i]).0 != hash,
    ensures
        cached_of(candidates, files.remove(hash)) == cached_of(candidates, files),
    decreases candidates.len(),
{
    reveal(Seq::filter);
    if candidates.len() > 0 {
        let rest = candidates.drop_last();
        assert(candidates.last() == candidates[candidates.len() - 1]);
        assert forall|i: int| 0 <= i < rest.len() implies (#[trigger] rest[i]).0 != hash by {
            assert(rest[i] == candidates[i]);
        }
        lemma_cached_of_others(rest, files, hash);
    }
}

/// The least recently used files go first: where candidates with different hashes
/// come in the order of their last use, those evicted are all the cached ones among
/// the first so many of them.
pub proof fn law_oldest_files_go_first(
    files: Set<Seq<char>>,
    candidates: Seq<(Seq<char>, i64)>,
    freed: u64,
    needed: u64,
) -> (n: int)
    requires
        forall|i: int, j: int|
            0 <= i < j < candidates.len() ==> (#[trigger] candidates[i]).0 != (
            #[trigger] candidates[j]).0,
    ensures
        0 <= n <= candidates.len(),
        evicted(files, candidates, freed, needed) == cached_of(candidates.take(n), files),
    decreases candidates.len(),
{
    reveal_with_fuel(Seq::filter, 2);
    if candidates.len() == 0 || freed >= needed {
        assert(candidates.take(0) =~= Seq::empty());
        0
    } else {
        let (hash, size) = candidates.first();
        let rest = candidates.drop_first();
        assert forall|i: int, j: int| 0 <= i < j < rest.len() implies (#[trigger] rest[i]).0 != (
        #[trigger] rest[j]).0 by {
            assert(rest[i] == candidates[i + 1] && rest[j] == candidates[j + 1]);
        }
        let head = seq![(hash, size)];
        let pred = |c: (Seq<char>, i64)| files.contains(c.0);
        assert(head.drop_last() =~= Seq::empty());
        let n = if files.contains(hash) {
            let n = law_oldest_files_go_first(
                files.remove(hash),
                rest,
                freed.wrapping_add(size as u64),
                needed,
            );
            assert forall|i: int| 0 <= i < n implies (#[trigger] rest.take(n)[i]).0 != hash by {
                assert(candidates[0].0 != candidates[i + 1].0);
            }
            lemma_cached_of_others(rest.take(n), files, hash);
            assert(head.filter(pred) =~= head);
            n
        } else {
            assert(head.filter(pred) =~= Seq::empty());
            law_oldest_files_go_first(files, rest, freed, needed)
        };
        assert(candidates.take(n + 1) =~= head + rest.take(n));
        Seq::filter_distributes_over_add(head, rest.take(n), pred);
        assert(cached_of(candidates.take(n + 1), files) =~= head.filter(pred) + cached_of(
            rest.take(n),
            files,
        ));
        n + 1
    }
}

/// The cache never grows beyond its size: after every store that succeeds the total
/// size is within the limit, whatever it was before; one that would exceed the limit
/// leaves the cache as it is.
pub proof fn law_cache_stays_within_its_size(
    before: CacheManager,
    after: CacheManager,
    hash: Seq<char>,
    size: u64,
    answer: Result<CachedFile, CacheError>,
)
    requires
        match answer {
            Ok(file) => {
                &&& file.hash@ == hash
                &&& file.size == size
                &&& before.total_with(hash, size as int) <= before.config.cache_size_bytes
                &&& after.stored_into(&before, file)
            },
            Err(_) => after == before,
        },
    ensures
        answer is Ok ==> after.total_size <= after.config.cache_size_bytes,
        before.total_size <= before.config.cache_size_bytes ==> after.total_size
            <= after.config.cache_size_bytes,
        after.config == before.config,
{
}

/// Eviction makes room: once as much has been evicted as is needed for a file, it fits.
pub proof fn law_eviction_makes_room(
    before: CacheManager,
    after: CacheManager,
    hash: Seq<char>,
    size: u64,
    candidates: Seq<(Seq<char>, i64)>,
)
    requires
        size <= before.config.cache_size_bytes,
        ({
            let needed = before.needed_for(size as int) as u64;
            let freed = candidate_sizes(evicted(before.files().dom(), candidates, 0, needed));
            &&& freed >= needed
            &&& after.total_size == before.total_size - freed
        }),
        after.config == before.config,
    ensures
        after.total_with(hash, size as int) <= after.config.cache_size_bytes,
{
}

/// A file that is cached is found, its use is counted and dated, and nothing else of it
/// changes; one that is not is a miss.
pub proof fn law_files_are_found(
    cache: &mut CacheManager,
    hash: &str,
    now: i64,
    answer: Result<Option<CachedFile>, CacheError>,
    has: bool,
    other: Seq<char>,
)
    requires
        call_ensures(CacheManager::get_file, (cache, hash, now), answer),
        call_ensures(CacheManager::has_file, (&*old(cache), hash), has),
    ensures
        has <==> old(cache).files().contains_key(hash@),
        answer is Ok,
        answer->Ok_0 is Some <==> has,
        answer->Ok_0 matches Some(file) ==> {
            let before = old(cache).files()[hash@];
            &&& file.hash == before.hash && file.size == before.size && file.path == before.path
            &&& file.file_type == before.file_type
            &&& file.last_accessed == now
            &&& before.hit_count < 0xffff_ffff_ffff_ffff ==> file.hit_count == before.hit_count + 1
            &&& final(cache).files()[hash@] == file
            &&& final(cache).stats.hits == old(cache).stats.hits.wrapping_add(1)
            &&& final(cache).stats.misses == old(cache).stats.misses
            &&& final(cache).stats.bytes_served == old(cache).stats.bytes_served.wrapping_add(
                file.size,
            )
        },
        answer->Ok_0 is None ==> {
            &&& final(cache).stats.misses == old(cache).stats.misses.wrapping_add(1)
            &&& final(cache).stats.hits == old(cache).stats.hits
            &&& final(cache).stats.bytes_served == old(cache).stats.bytes_served
        },
        final(cache).files().contains_key(other) <==> old(cache).files().contains_key(other),
        other != hash@ && old(cache).files().contains_key(other) ==> final(cache).files()[other]
            == old(cache).files()[other],
        final(cache).total_size == old(cache).total_size,
        final(cache).stats.total_files == old(cache).stats.total_files,
        final(cache).stats.total_size == old(cache).stats.total_size,
        final(cache).config == old(cache).config,
{
}

/// Before a file is stored: data with another hash are refused with both hashes, data that
/// are larger than the cache are too much, and where the cache would hold too much with
/// them in place of the file of the same hash, so many bytes have to be freed as the data
/// have, or as are too much, whichever is more.
pub proof fn law_stores_are_prepared(
    cache: CacheManager,
    hash: &str,
    data: &[u8],
    answer: Result<(CheckedFile, Option<u64>), CacheError>,
    known: int,
    fits: bool,
    size: u64,
    computed: String,
)
    requires
        call_ensures(CacheManager::prepare_store, (&cache, hash, data), answer),
        call_ensures(CacheManager::fits, (&cache, hash, size), fits),
        call_ensures(CacheManager::compute_hash, (&cache, data), computed),
        known == (if cache.files().contains_key(hash@) {
            cache.files()[hash@].size as int
        } else {
            0
        }),
    ensures
        computed@ == digest::hex_of(digest::sha1_of(data@)),
        hash@ != computed@ ==> (answer matches Err(CacheError::HashMismatch { expected, actual })
            && expected@ == hash@ && actual@ == computed@),
        hash@ == computed@ && data@.len() > cache.config.cache_size_bytes ==> answer is Err
            && answer->Err_0 is CacheFull,
        answer is Ok <==> hash@ == computed@ && data@.len() <= cache.config.cache_size_bytes,
        answer matches Ok((checked, needed)) ==> {
            let kept = if cache.total_size >= known {
                cache.total_size - known
            } else {
                0
            };
            let excess = cache.total_size + data@.len() - cache.config.cache_size_bytes;
            &&& checked.data() == data@
            &&& needed is None <==> kept + data@.len() <= cache.config.cache_size_bytes
            &&& needed matches Some(bytes) ==> bytes == (if excess > data@.len() {
                excess
            } else {
                data@.len() as int
            })
        },
        fits <==> (if cache.total_size >= known {
            cache.total_size - known
        } else {
            0
        }) + size <= cache.config.cache_size_bytes,
{
}

/// A file is stored where the cache holds it within its size, in place of the one of the
/// same hash; else the cache is full and stays as it is.
pub proof fn law_files_are_stored(
    cache: &mut CacheManager,
    checked: CheckedFile,
    path: &str,
    kind: &str,
    now: i64,
    answer: Result<CachedFile, CacheError>,
    hash: Seq<char>,
    known: int,
    other: Seq<char>,
)
    requires
        call_ensures(CacheManager::store_file, (cache, &checked, path, kind, now), answer),
        hash == digest::hex_of(digest::sha1_of(checked.data())),
        known == (if old(cache).files().contains_key(hash) {
            old(cache).files()[hash].size as int
        } else {
            0
        }),
    ensures
        ({
            let kept = if old(cache).total_size >= known {
                old(cache).total_size - known
            } else {
                0
            };
            &&& answer is Ok <==> kept + checked.data().len() <= old(cache).config.cache_size_bytes
            &&& answer is Ok ==> final(cache).total_size == kept + checked.data().len()
        }),
        answer is Err ==> answer->Err_0 is CacheFull && *final(cache) == *old(cache),
        answer matches Ok(file) ==> {
            &&& file.hash@ == hash && file.size == checked.data().len() && file.path@ == path@
            &&& file.file_type@ == kind@ && file.last_accessed == now && file.hit_count == 0
            &&& final(cache).files().contains_key(hash) && final(cache).files()[hash] == file
            &&& other != hash ==> (final(cache).files().contains_key(other)
                <==> old(cache).files().contains_key(other))
            &&& other != hash && old(cache).files().contains_key(other)
                ==> final(cache).files()[other] == old(cache).files()[other]
            &&& final(cache).stats.total_files == old(cache).stats.total_files.wrapping_add(
                if old(cache).files().contains_key(hash) {
                    0
                } else {
                    1
                },
            )
            &&& old(cache).stats.total_size >= known && old(cache).stats.total_size - known
                + file.size <= 0xffff_ffff_ffff_ffff ==> final(cache).stats.total_size
                    == old(cache).stats.total_size - known + file.size
            &&& final(cache).stats.hits == old(cache).stats.hits
            &&& final(cache).stats.misses == old(cache).stats.misses
            &&& final(cache).config == old(cache).config
        },
{
}

/// The index is loaded row by row: a row whose file is there is indexed under its hash,
/// with its size and count added; one whose file is gone is passed over.
pub proof fn law_rows_are_loaded(
    rows: Seq<IndexRow>,
    row: IndexRow,
    before: Map<Seq<char>, CachedFile>,
    cache: &mut CacheManager,
    list: Vec<IndexRow>,
)
    requires
        call_ensures(CacheManager::load_cache_index, (cache, list), ()),
    ensures
        loaded(Seq::empty(), before) == (before, 0u64, 0u64),
        row.exists ==> loaded(rows.push(row), before) == (
            loaded(rows, before).0.insert(
                row.hash@,
                CachedFile {
                    hash: row.hash,
                    size: row.size as u64,
                    path: row.path,
                    file_type: row.file_type,
                    last_accessed: row.last_accessed,
                    hit_count: row.hit_count as u64,
                },
            ),
            loaded(rows, before).1.wrapping_add(1),
            loaded(rows, before).2.wrapping_add(row.size as u64),
        ),
        !row.exists ==> loaded(rows.push(row), before) == loaded(rows, before),
        final(cache).files() == loaded(list@, old(cache).files()).0,
        final(cache).total_size == loaded(list@, old(cache).files()).2,
        final(cache).stats.total_files == loaded(list@, old(cache).files()).1,
        final(cache).stats.total_size == final(cache).total_size,
        final(cache).stats.hits == old(cache).stats.hits,
        final(cache).stats.misses == old(cache).stats.misses,
        final(cache).stats.bytes_served == old(cache).stats.bytes_served,
        final(cache).config == old(cache).config,
{
    assert(rows.push(row).drop_last() =~= rows);
}

/// Candidates are taken in turn: one that is cached is evicted, once, and its size counts
/// as freed; one that is not is passed over; and once enough is freed, no more is.
pub proof fn law_candidates_are_taken_in_turn(
    files: Set<Seq<char>>,
    hash: Seq<char>,
    size: i64,
    rest: Seq<(Seq<char>, i64)>,
    freed: u64,
    needed: u64,
    cache: CacheManager,
    candidates: Vec<(String, i64)>,
    chosen: Vec<(String, i64)>,
    i: int,
)
    requires
        call_ensures(CacheManager::evict_files, (&cache, needed, &candidates), chosen),
    ensures
        evicted(files, Seq::empty(), freed, needed) == Seq::<(Seq<char>, i64)>::empty(),
        freed >= needed ==> evicted(files, rest, freed, needed) == Seq::<
            (Seq<char>, i64),
        >::empty(),
        freed < needed && files.contains(hash) && size >= 0 && freed + size <= 0xffff_ffff_ffff_ffff
            ==> evicted(files, seq![(hash, size)] + rest, freed, needed) == seq![(hash, size)]
            + evicted(files.remove(hash), rest, (freed + size) as u64, needed),
        freed < needed && !files.contains(hash) ==> evicted(
            files,
            seq![(hash, size)] + rest,
            freed,
            needed,
        ) == evicted(files, rest, freed, needed),
        chosen@.len() == evicted(
            cache.files().dom(),
            candidates@.map_values(|c: (String, i64)| (c.0@, c.1)),
            0,
            needed,
        ).len(),
        0 <= i < chosen@.len() ==> (chosen@[i].0@, chosen@[i].1) == evicted(
            cache.files().dom(),
            candidates@.map_values(|c: (String, i64)| (c.0@, c.1)),
            0,
            needed,
        )[i],
{
    let all = seq![(hash, size)] + rest;
    assert(all.drop_first() =~= rest);
    assert(candidate_views(chosen@).len() == chosen@.len());
    if 0 <= i < chosen@.len() {
        assert(candidate_views(chosen@)[i] == (chosen@[i].0@, chosen@[i].1));
    }
    assert(candidate_views(candidates@) =~= candidates@.map_values(
        |c: (String, i64)| (c.0@, c.1),
    ));
}

/// What is evicted leaves the index, and its size the total; the statistics follow at the
/// end.
pub proof fn law_files_are_evicted(
    cache: &mut CacheManager,
    other: &mut CacheManager,
    third: &mut CacheManager,
    hash: &str,
    file: Option<CachedFile>,
    size: i64,
)
    requires
        call_ensures(CacheManager::evict_file, (cache, hash), file),
        call_ensures(CacheManager::count_freed, (other, size), ()),
        call_ensures(CacheManager::end_eviction, (third,), ()),
    ensures
        final(cache).files() == old(cache).files().remove(hash@),
        file is Some <==> old(cache).files().contains_key(hash@),
        file is Some ==> file->0 == old(cache).files()[hash@],
        final(cache).total_size == old(cache).total_size && final(cache).stats == old(cache).stats,
        0 <= size <= old(other).total_size ==> final(other).total_size == old(other).total_size
            - size,
        final(other).files() == old(other).files() && final(other).stats == old(other).stats,
        final(third).stats.total_size == old(third).total_size,
        final(third).stats.total_files == old(third).stats.total_files,
        final(third).files() == old(third).files(),
        final(third).total_size == old(third).total_size,
{
}

/// A file lies in the directory that its first two bytes name, under its hash.
pub proof fn law_files_have_their_place(
    cache: CacheManager,
    hash: &str,
    place: (String, String),
    first: Seq<char>,
    rest: Seq<char>,
)
    requires
        call_ensures(CacheManager::get_file_path, (&cache, hash), place),
    ensures
        place.1@ == hash@,
        hash@ == first + rest && text::byte_len(first) == 2 ==> place.0@ == first,
        text::byte_len(hash@) < 2 ==> place.0@ == hash@,
{
    if hash@ == first + rest && text::byte_len(first) == 2 {
        assert(hash@.take(first.len() as int) =~= first);
        text::lemma_byte_len(first);
        text::law_bytes_are_utf8(hash@, 2, first.len() as int);
        text::lemma_byte_len_concat(first, rest);
    }
}

/// A file that is found in the directory of the cache is one of its own where its name has
/// forty bytes and is not indexed; it is then indexed under its name with its size.
pub proof fn law_files_are_recovered(
    cache: &mut CacheManager,
    name: &str,
    size: u64,
    path: &str,
    now: i64,
    file: CachedFile,
    lost: bool,
)
    requires
        call_ensures(CacheManager::recover_file, (cache, name, size, path, now), file),
        call_ensures(CacheManager::is_unindexed, (&*old(cache), name), lost),
    ensures
        lost <==> encode_utf8(name@).len() == 40 && !old(cache).files().contains_key(name@),
        file.hash@ == name@ && file.size == size && file.path@ == path@,
        file.file_type@ == "unknown"@ && file.last_accessed == now && file.hit_count == 0,
        final(cache).files() == old(cache).files().insert(name@, file),
        lost && old(cache).total_size + size <= 0xffff_ffff_ffff_ffff ==> final(cache).total_size
            == old(cache).total_size + size,
        old(cache).files().contains_key(name@)
            && old(cache).files()[name@].size <= old(cache).total_size
            && old(cache).total_size - old(cache).files()[name@].size + size
            <= 0xffff_ffff_ffff_ffff ==> final(cache).total_size
                == old(cache).total_size - old(cache).files()[name@].size + size,
        final(cache).stats == old(cache).stats,
{
    text::lemma_byte_len(name@);
}

/// What the cache tells of itself, and how it begins.
pub proof fn law_cache_tells(
    cache: CacheManager,
    stats: CacheStats,
    total: u64,
    count: usize,
    data: &[u8],
    bytes: [u8; 20],
    config: Config,
    fresh: CacheManager,
)
    requires
        call_ensures(CacheManager::get_stats, (&cache,), stats),
        call_ensures(CacheManager::get_total_size, (&cache,), total),
        call_ensures(CacheManager::get_file_count, (&cache,), count),
        call_ensures(CacheManager::compute_hash_bytes, (&cache, data), bytes),
        call_ensures(CacheManager::new, (config,), fresh),
    ensures
        stats == cache.stats && total == cache.total_size && count == cache.files().len(),
        bytes@ == digest::sha1_of(data@),
        fresh.config == config && fresh.total_size == 0,
        fresh.files().dom() == Set::<Seq<char>>::empty(),
        fresh.stats.total_files == 0 && fresh.stats.total_size == 0 && fresh.stats.hits == 0,
        fresh.stats.misses == 0 && fresh.stats.bytes_served == 0,
{
    assert(fresh.files().dom() =~= Set::<Seq<char>>::empty());
}

/// The errors in words.
pub proof fn law_cache_errors_are_told(e: CacheError, told: String)
    requires
        call_ensures(CacheError::message, (&e,), told),
    ensures
        e matches CacheError::NotFound(s) ==> told@ == "File not found: "@ + s@,
        e matches CacheError::Io(s) ==> told@ == "IO error: "@ + s@,
        e matches CacheError::Database(s) ==> told@ == "Database error: "@ + s@,
        e matches CacheError::HashMismatch { expected, actual } ==> told@
            == "Invalid hash: expected "@ + expected@ + ", got "@ + actual@,
        e is CacheFull ==> told@ == "Cache full"@,
{
}

}
