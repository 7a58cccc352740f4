//! The resolver cache: hits share one parse, identity changes invalidate,
//! and the least recently used entry is evicted first.

use std::rc::Rc;

use addrnorm::backend::ElfParser;
use addrnorm::cache::ElfCache;
use addrnorm::identity::FileIdentity;

fn identity(ino: u64, size: i64) -> FileIdentity {
    FileIdentity {
        dev: 7,
        ino,
        size,
        mtime_sec: 1_000,
        mtime_nsec: 500,
    }
}

/// Two `find` calls for an unchanged file return backends sharing one
/// underlying parsed structure, not two independent parses.
#[test]
fn test_cache() {
    let code_info = true;
    let debug_syms = false;
    let mut cache = ElfCache::new(code_info, debug_syms);

    let path = b"/tmp/test-no-debug.bin".to_vec();
    let id = identity(41, 1024);

    let backend_first = cache.find(&path, id, ElfParser::new(None));
    let backend_second = cache.find(&path, id, ElfParser::new(None));
    assert!(backend_first.is_dwarf());
    assert!(backend_second.is_dwarf());
    let first = backend_first.to_dwarf().unwrap();
    let second = backend_second.to_dwarf().unwrap();
    assert!(Rc::ptr_eq(first.get_parser(), second.get_parser()));
}

/// A hit returns the very backend stored before, even through the hit-only
/// lookup.
#[test]
fn cache_hit_reuses_backend() {
    let mut cache = ElfCache::new(false, false);
    let path = b"/usr/lib/libx.so".to_vec();
    let id = identity(1, 10);

    let built = cache.find(&path, id, ElfParser::new(Some(vec![1, 2, 3])));
    let hit = cache.lookup(&path, id).expect("entry must be cached");
    let d1 = built.to_dwarf().unwrap();
    let d2 = hit.to_dwarf().unwrap();
    assert!(Rc::ptr_eq(&d1, &d2));
}

/// After the file's identity changes, `find` returns a backend built from
/// the fresh parse, never the stale one.
#[test]
fn cache_invalidation_on_change() {
    let mut cache = ElfCache::new(true, false);
    let path = b"/usr/bin/tool".to_vec();

    let old_backend = cache.find(&path, identity(9, 100), ElfParser::new(Some(vec![0x01])));
    assert_eq!(old_backend.build_id(), &Some(vec![0x01]));

    // The file was rewritten: same path, new size, new content.
    let new_backend = cache.find(&path, identity(9, 164), ElfParser::new(Some(vec![0x02])));
    assert_eq!(new_backend.build_id(), &Some(vec![0x02]));

    // The stale identity no longer hits.
    assert!(cache.lookup(&path, identity(9, 100)).is_none());
    // The fresh identity hits and still carries the new parse.
    let again = cache.lookup(&path, identity(9, 164)).unwrap();
    assert_eq!(again.build_id(), &Some(vec![0x02]));
}

/// Inserting more distinct paths than the capacity never grows the cache
/// beyond it, and the least recently used entry leaves first.
#[test]
fn eviction_bound() {
    let line_info = false;
    let debug_syms = false;
    let debug_format = true;
    let bounded = true;
    let mut cache = ElfCache::with_config(line_info, debug_syms, debug_format, bounded, 2);
    assert_eq!(cache.capacity(), 2);

    let pa = b"/a".to_vec();
    let pb = b"/b".to_vec();
    let pc = b"/c".to_vec();
    let id = identity(3, 30);

    cache.find(&pa, id, ElfParser::new(None));
    cache.find(&pb, id, ElfParser::new(None));
    assert_eq!(cache.len(), 2);

    // Touch `/a`, making `/b` the least recently used entry.
    cache.lookup(&pa, id).unwrap();

    cache.find(&pc, id, ElfParser::new(None));
    assert_eq!(cache.len(), 2);

    // `/b` was evicted; `/a` and `/c` survive.
    assert!(cache.lookup(&pb, id).is_none());
    assert!(cache.lookup(&pa, id).is_some());
    assert!(cache.lookup(&pc, id).is_some());
}

/// An unbounded-off configuration stores nothing and re-parses every call.
#[test]
fn disabled_cache_stores_nothing() {
    let mut cache = ElfCache::with_config(true, true, false, false, 8);
    let path = b"/x".to_vec();
    let id = identity(5, 50);

    let b1 = cache.find(&path, id, ElfParser::new(None));
    assert!(!b1.is_dwarf());
    assert_eq!(cache.len(), 0);
    assert!(cache.lookup(&path, id).is_none());
}

/// The configured build options decide the backend's shape and carried
/// options.
#[test]
fn backend_configuration() {
    let mut cache = ElfCache::new(true, false);
    let path = b"/y".to_vec();
    let backend = cache.find(&path, identity(6, 60), ElfParser::new(None));
    let dwarf = backend.to_dwarf().unwrap();
    assert!(dwarf.line_number_info);
    assert!(!dwarf.debug_info_symbols);

    let mut plain = ElfCache::with_config(false, false, false, true, 4);
    let backend = plain.find(&path, identity(6, 60), ElfParser::new(None));
    assert!(!backend.is_dwarf());
    assert!(backend.to_dwarf().is_none());
}

/// Identity comparison is exact on all five fields.
#[test]
fn identity_exact_match() {
    let a = identity(1, 2);
    assert!(a.matches(&a));
    let mut b = a;
    b.mtime_nsec += 1;
    assert!(!a.matches(&b));
    let mut c = a;
    c.dev += 1;
    assert!(!a.matches(&c));
}

/// Probing a stored path with a stale identity still refreshes its
/// recency: the untouched other entry becomes the eviction victim.
#[test]
fn stale_probe_refreshes_recency() {
    let mut cache = ElfCache::with_config(false, false, true, true, 2);
    let pa = b"/a".to_vec();
    let pb = b"/b".to_vec();
    let pc = b"/c".to_vec();

    cache.find(&pa, identity(1, 1), ElfParser::new(None));
    cache.find(&pb, identity(2, 2), ElfParser::new(None));

    // `/a` is probed with a changed identity: no hit, but `/a` becomes the
    // most recently used entry, leaving `/b` as the victim.
    assert!(cache.lookup(&pa, identity(1, 999)).is_none());

    cache.find(&pc, identity(3, 3), ElfParser::new(None));
    assert_eq!(cache.len(), 2);
    assert!(cache.lookup(&pb, identity(2, 2)).is_none());
    assert!(cache.lookup(&pc, identity(3, 3)).is_some());
}
