use h_at_h_rs::cache::{CacheError, CacheManager, CachedFile, IndexRow};
use h_at_h_rs::config::Config;

const ABC: &str = "a9993e364706816aba3e25717850c26c9cd0d89d";

fn cache(limit: u64) -> CacheManager {
    let mut config = Config::default();
    config.cache_size_bytes = limit;
    CacheManager::new(config)
}

fn store(c: &mut CacheManager, data: &[u8], path: &str, now: i64) -> Result<CachedFile, CacheError> {
    let (checked, _) = c.prepare_store(&c.compute_hash(data), data)?;
    c.store_file(&checked, path, "png", now)
}

fn row(hash: &str, size: i64, exists: bool) -> IndexRow {
    IndexRow {
        hash: hash.to_string(),
        size,
        path: format!("p/{}", hash),
        file_type: "jpg".to_string(),
        last_accessed: 5,
        hit_count: 2,
        exists,
    }
}

#[test]
fn index_is_loaded() {
    let mut c = cache(100);
    c.load_cache_index(vec![row("a", 10, true), row("b", 20, false), row("c", 30, true)]);
    assert_eq!((c.get_total_size(), c.get_file_count()), (40, 2));
    assert_eq!((c.get_stats().total_files, c.get_stats().total_size), (2, 40));
    assert!(c.has_file("a") && !c.has_file("b") && c.has_file("c"));
}

#[test]
fn hits_and_misses_are_counted() {
    let mut c = cache(100);
    c.load_cache_index(vec![row("a", 10, true)]);
    let file = c.get_file("a", 77).unwrap().unwrap();
    assert_eq!((file.last_accessed, file.hit_count, file.size), (77, 3, 10));
    assert_eq!((file.path.as_str(), file.file_type.as_str()), ("p/a", "jpg"));
    assert_eq!(c.get_file("a", 78).unwrap().unwrap().hit_count, 4);
    assert!(c.get_file("b", 79).unwrap().is_none());
    let stats = c.get_stats();
    assert_eq!((stats.hits, stats.misses, stats.bytes_served), (2, 1, 20));
    assert_eq!(c.get_total_size(), 10);
}

#[test]
fn only_data_with_the_right_hash_is_stored() {
    let c = cache(100);
    assert_eq!(c.prepare_store(ABC, b"abc").unwrap().1, None);
    match c.prepare_store(ABC, b"abd") {
        Err(CacheError::HashMismatch { expected, actual }) => {
            assert_eq!(expected, ABC);
            assert_eq!(actual, "cb4cc28df0fdbe0ecf9d9662e294b118092a5735");
        }
        _ => panic!(),
    }
}

#[test]
fn full_cache_needs_room() {
    let mut c = cache(12);
    c.load_cache_index(vec![row("a", 10, true)]);
    assert_eq!(c.prepare_store(ABC, b"abc").unwrap().1, Some(3));
    let mut c = cache(13);
    c.load_cache_index(vec![row("a", 10, true)]);
    assert_eq!(c.prepare_store(ABC, b"abc").unwrap().1, None);
    let mut c = cache(4);
    c.load_cache_index(vec![row("a", 10, true)]);
    assert_eq!(c.prepare_store(ABC, b"abc").unwrap().1, Some(9));
}

#[test]
fn stored_file_is_found_and_accounted() {
    let mut c = cache(100);
    let (checked, _) = c.prepare_store(ABC, b"abc").unwrap();
    assert_eq!((checked.hash(), checked.size()), (ABC, 3));
    let file = c.store_file(&checked, "./cache/a9/x", "png", 50).unwrap();
    assert_eq!((file.hash.as_str(), file.size, file.hit_count), (ABC, 3, 0));
    assert_eq!((file.path.as_str(), file.file_type.as_str()), ("./cache/a9/x", "png"));
    assert!(c.has_file(ABC));
    assert_eq!((c.get_total_size(), c.get_file_count()), (3, 1));
    assert_eq!((c.get_stats().total_files, c.get_stats().total_size), (1, 3));
}

#[test]
fn oldest_files_are_evicted_until_enough_is_free() {
    let mut c = cache(100);
    c.load_cache_index(vec![row("a", 10, true), row("b", 20, true), row("c", 30, true)]);
    let candidates: Vec<(String, i64)> =
        [("x", 99), ("a", 10), ("a", 10), ("b", 20), ("c", 30)]
            .iter()
            .map(|(h, s)| (h.to_string(), *s))
            .collect();
    let chosen = c.evict_files(15, &candidates);
    assert_eq!(chosen, vec![("a".to_string(), 10), ("b".to_string(), 20)]);
    assert!(c.evict_files(0, &candidates).is_empty());
    assert_eq!(c.evict_files(1000, &candidates).len(), 3);
    for (hash, size) in chosen {
        assert!(c.evict_file(&hash).is_some());
        c.count_freed(size);
    }
    c.end_eviction();
    assert_eq!((c.get_total_size(), c.get_file_count()), (30, 1));
    assert_eq!(c.get_stats().total_size, 30);
    assert!(c.evict_file("a").is_none());
}

#[test]
fn hashes_are_computed() {
    let c = cache(0);
    assert_eq!(c.compute_hash(b"abc"), ABC);
    let bytes = c.compute_hash_bytes(b"abc");
    assert_eq!(bytes[..4], [0xa9, 0x99, 0x3e, 0x36]);
    assert_eq!(bytes.len(), 20);
}

#[test]
fn files_have_a_place() {
    let c = cache(0);
    let place = |hash: &str| c.get_file_path(hash);
    assert_eq!(place("abcd"), ("ab".to_string(), "abcd".to_string()));
    assert_eq!(place("a"), ("a".to_string(), "a".to_string()));
    assert_eq!(place(""), (String::new(), String::new()));
}

#[test]
fn unindexed_files_are_recovered() {
    let mut c = cache(0);
    assert!(c.is_unindexed(ABC));
    assert!(!c.is_unindexed("short"));
    let file = c.recover_file(ABC, 9, "p", 4);
    assert_eq!((file.file_type.as_str(), file.last_accessed), ("unknown", 4));
    assert!(!c.is_unindexed(ABC));
    assert_eq!((c.get_total_size(), c.get_stats().total_files), (9, 0));
}

#[test]
fn cache_errors_in_words() {
    let s = || "x".to_string();
    assert_eq!(CacheError::NotFound(s()).message(), "File not found: x");
    assert_eq!(CacheError::Io(s()).message(), "IO error: x");
    assert_eq!(CacheError::Database(s()).message(), "Database error: x");
    assert_eq!(CacheError::CacheFull.message(), "Cache full");
    assert_eq!(
        CacheError::HashMismatch { expected: "a".to_string(), actual: "b".to_string() }.message(),
        "Invalid hash: expected a, got b"
    );
}

#[test]
fn cache_stays_within_its_size() {
    let mut c = cache(50);
    c.load_cache_index(vec![row("old", 30, true), row("new", 19, true)]);
    assert_eq!(c.prepare_store(ABC, b"abc").unwrap().1, Some(3));
    let candidates = vec![("old".to_string(), 30), ("new".to_string(), 19)];
    for (hash, size) in c.evict_files(3, &candidates) {
        c.evict_file(&hash);
        c.count_freed(size);
    }
    c.end_eviction();
    assert!(c.fits(ABC, 3));
    store(&mut c, b"abc", "p", 1).unwrap();
    assert_eq!(c.get_total_size(), 22);
    assert!(!c.has_file("old") && c.has_file("new"));
}

#[test]
fn file_that_does_not_fit_is_refused() {
    let mut c = cache(12);
    c.load_cache_index(vec![row("a", 10, true)]);
    assert!(c.fits(ABC, 2) && !c.fits(ABC, 3));
    assert!(matches!(store(&mut c, b"abc", "p", 1), Err(CacheError::CacheFull)));
    assert!(!c.has_file(ABC));
    assert_eq!((c.get_total_size(), c.get_file_count(), c.get_stats().total_files), (10, 1, 1));
    assert!(store(&mut c, b"ab", "p", 1).is_ok());
    assert_eq!(c.get_total_size(), 12);
    assert!(matches!(cache(2).prepare_store(ABC, b"abc"), Err(CacheError::CacheFull)));
    assert!(matches!(cache(2).prepare_store("x", b"abc"), Err(CacheError::HashMismatch { .. })));
}

#[test]
fn file_that_is_stored_again_counts_once() {
    let mut c = cache(4);
    store(&mut c, b"abc", "p", 1).unwrap();
    let once = c.get_stats();
    assert_eq!(c.prepare_store(ABC, b"abc").unwrap().1, None);
    let again = store(&mut c, b"abc", "q", 2).unwrap();
    assert_eq!((again.path.as_str(), again.last_accessed), ("q", 2));
    assert_eq!((c.get_total_size(), c.get_file_count()), (3, 1));
    assert_eq!(c.get_stats(), once);
    c.recover_file(ABC, 9, "p", 3);
    assert_eq!((c.get_total_size(), c.get_file_count()), (9, 1));
    store(&mut c, b"abc", "p", 4).unwrap();
    assert_eq!((c.get_total_size(), c.get_file_count()), (3, 1));
}
