//! The hash and the caches of heard keys.

use poholos::{fnv64, Ring, SeenCache, SEEN_CAPACITY};

#[test]
fn fnv64_matches_reference_vectors() {
    assert_eq!(fnv64(b""), 0xcbf2_9ce4_8422_2325);
    assert_eq!(fnv64(b"a"), 0xaf63_dc4c_8601_ec8c);
    assert_eq!(fnv64(b"foobar"), 0x8594_4171_f739_67e8);
}

#[test]
fn insert_reports_novelty() {
    let mut seen = SeenCache::new();
    assert!(seen.insert(1));
    assert!(seen.insert(2));
    assert!(!seen.insert(1));
    assert_eq!(seen.len(), 2);
    assert!(seen.contains(2));
    assert!(!seen.contains(3));
}

#[test]
fn capacity_evicts_oldest_first() {
    let mut seen = SeenCache::new();
    for k in 0..SEEN_CAPACITY as u64 {
        assert!(seen.insert(k));
    }
    assert_eq!(seen.len(), SEEN_CAPACITY);

    // One past capacity evicts key 0, the oldest.
    assert!(seen.insert(SEEN_CAPACITY as u64));
    assert_eq!(seen.len(), SEEN_CAPACITY);
    assert!(!seen.contains(0));
    assert!(seen.contains(1));
    assert!(seen.contains(SEEN_CAPACITY as u64));

    // Re-inserting the evicted key counts as new again.
    assert!(seen.insert(0));
}

#[test]
fn duplicate_hit_refreshes_age() {
    let mut seen = SeenCache::new();
    for k in 0..SEEN_CAPACITY as u64 {
        assert!(seen.insert(k));
    }

    // Re-hearing the stalest key (a frame still on air) refreshes it to
    // newest, so the next eviction takes key 1 instead.
    assert!(!seen.insert(0));
    assert!(seen.insert(SEEN_CAPACITY as u64));
    assert!(seen.contains(0));
    assert!(!seen.contains(1));
}

#[test]
fn fnv64_streams_over_its_parts() {
    let first = poholos::seen::fnv64_update(poholos::seen::FNV_OFFSET_BASIS, b"foo");
    assert_eq!(poholos::seen::fnv64_update(first, b"bar"), fnv64(b"foobar"));
}

#[test]
fn a_new_cache_is_empty() {
    assert!(SeenCache::new().is_empty());
    assert!(SeenCache::default().is_empty());
    assert!(Ring::new().is_empty());
    assert!(Ring::default().is_empty());
    let mut ring = Ring::new();
    ring.insert(3);
    assert!(!ring.is_empty());
}

#[test]
fn both_caches_agree_on_a_long_history() {
    let mut cache = SeenCache::new();
    let mut ring = Ring::new();
    let mut state: u64 = 7;
    for _ in 0..6000u32 {
        state = state
            .wrapping_mul(6364136223846793005)
            .wrapping_add(1442695040888963407);
        let key = (state >> 33) % 700;
        assert_eq!(cache.insert(key), ring.insert(key));
        assert_eq!(cache.len(), ring.len());
    }
    assert_eq!(cache.len(), SEEN_CAPACITY);
    for key in 0..700u64 {
        assert_eq!(cache.contains(key), ring.contains(key));
    }
}

#[test]
fn the_ring_refreshes_in_the_middle_and_evicts_the_stalest() {
    let mut ring = Ring::new();
    for k in 0..SEEN_CAPACITY as u64 {
        assert!(ring.insert(k));
    }
    assert!(ring.insert(1000));
    assert!(!ring.contains(0));
    assert!(!ring.insert(1));
    assert!(ring.insert(1001));
    assert!(!ring.contains(2));
    assert!(ring.contains(1));
    assert_eq!(ring.len(), SEEN_CAPACITY);
}
