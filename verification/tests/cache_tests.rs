use cobra::cache::{HitRate, Lookup, MultiLevelCache};
use cobra::constants::{FILTER_BYTES, FILTER_ITEMS, MEMORY_CACHE_ENTRIES};
use std::collections::HashMap;

/// A cache together with a disk tier, driven as a caller of the library
/// drives it.
struct Store {
    cache: MultiLevelCache,
    disk: HashMap<String, Vec<u8>>,
}

impl Store {
    fn new(cache: MultiLevelCache) -> Store {
        Store { cache, disk: HashMap::new() }
    }

    fn get(&mut self, key: &str) -> Option<Vec<u8>> {
        assert!(self.cache.can_count());
        match self.cache.get(key) {
            Lookup::Miss => None,
            Lookup::Hit(data) => Some(data),
            Lookup::AskDisk => {
                let found = self.disk.get(key).cloned();
                self.cache.complete_get(key, found)
            }
        }
    }

    fn put(&mut self, key: &str, data: &[u8]) {
        self.cache.put(key.to_string(), data.to_vec());
        self.disk.insert(key.to_string(), data.to_vec());
    }
}

fn rate(hits: u64, total: u64) -> HitRate {
    HitRate { hits, total }
}

#[test]
fn filter_is_sized_for_one_percent_of_ten_thousand() {
    assert_eq!(FILTER_ITEMS, 10000);
    assert_eq!(bloomfilter::Bloom::<str>::compute_bitmap_size(FILTER_ITEMS, 0.01), FILTER_BYTES);
    assert_eq!(MEMORY_CACHE_ENTRIES, 1000);
}

#[test]
fn fresh_cache_has_no_accesses() {
    let cache = MultiLevelCache::new();
    assert_eq!(cache.hit_rate(), rate(0, 0));
}

#[test]
fn get_returns_what_was_put() {
    let mut store = Store::new(MultiLevelCache::new());
    store.put("artifact:alpha:1.0", b"wheel bytes");
    assert_eq!(store.get("artifact:alpha:1.0").as_deref(), Some(&b"wheel bytes"[..]));
    store.put("artifact:alpha:1.0", b"other bytes");
    assert_eq!(store.get("artifact:alpha:1.0").as_deref(), Some(&b"other bytes"[..]));
}

#[test]
fn miss_then_hit_counts_one_each() {
    let mut store = Store::new(MultiLevelCache::new());
    assert_eq!(store.get("metadata:alpha:*"), None);
    assert_eq!(store.cache.hit_rate(), rate(0, 1));
    store.put("metadata:alpha:*", b"{}");
    assert_eq!(store.cache.hit_rate(), rate(0, 1));
    assert_eq!(store.get("metadata:alpha:*").as_deref(), Some(&b"{}"[..]));
    assert_eq!(store.cache.hit_rate(), rate(1, 2));
}

#[test]
fn put_key_is_never_denied_by_the_filter() {
    let mut cache = MultiLevelCache::new();
    for i in 0..200 {
        cache.put(format!("artifact:p{}:1.0", i), vec![i as u8]);
    }
    for i in 0..200 {
        match cache.get(&format!("artifact:p{}:1.0", i)) {
            Lookup::Hit(data) => assert_eq!(data, vec![i as u8]),
            other => panic!("expected a hit in memory, got {:?}", other),
        }
    }
    assert_eq!(cache.hit_rate(), rate(200, 200));
}

#[test]
fn least_recently_used_entry_is_pushed_out_and_served_from_disk() {
    let mut store = Store::new(MultiLevelCache::with_capacity(2));
    store.put("a", b"1");
    store.put("b", b"2");
    assert!(matches!(store.cache.get("a"), Lookup::Hit(_)));
    store.put("c", b"3");
    assert!(matches!(store.cache.get("b"), Lookup::AskDisk));
    assert_eq!(store.cache.complete_get("b", Some(b"2".to_vec())), Some(b"2".to_vec()));
    assert!(matches!(store.cache.get("b"), Lookup::Hit(_)));
    assert!(matches!(store.cache.get("c"), Lookup::Hit(_)));
    assert!(matches!(store.cache.get("a"), Lookup::AskDisk));
    assert_eq!(store.get("a").as_deref(), Some(&b"1"[..]));
}

#[test]
fn failed_disk_write_leaves_the_value_in_memory() {
    let mut cache = MultiLevelCache::new();
    cache.put("k".to_string(), b"v".to_vec());
    match cache.get("k") {
        Lookup::Hit(data) => assert_eq!(data, b"v".to_vec()),
        other => panic!("expected a hit in memory, got {:?}", other),
    }
}

#[test]
fn disk_miss_counts_as_a_miss() {
    let mut cache = MultiLevelCache::with_capacity(1);
    cache.put("a".to_string(), b"1".to_vec());
    cache.put("b".to_string(), b"2".to_vec());
    assert!(matches!(cache.get("a"), Lookup::AskDisk));
    assert_eq!(cache.hit_rate(), rate(0, 0));
    assert_eq!(cache.complete_get("a", None), None);
    assert_eq!(cache.hit_rate(), rate(0, 1));
}

#[test]
fn clear_resets_tiers_and_counters() {
    let mut store = Store::new(MultiLevelCache::new());
    store.put("a", b"1");
    assert!(store.get("a").is_some());
    store.cache.clear();
    store.disk.clear();
    assert_eq!(store.cache.hit_rate(), rate(0, 0));
    assert_eq!(store.get("a"), None);
    assert_eq!(store.cache.hit_rate(), rate(0, 1));
}

#[test]
fn remembered_key_reaches_the_disk_tier() {
    let mut store = Store::new(MultiLevelCache::new());
    store.disk.insert("artifact:alpha:1.0".to_string(), b"kept".to_vec());
    store.cache.remember("artifact:alpha:1.0");
    assert_eq!(store.get("artifact:alpha:1.0").as_deref(), Some(&b"kept"[..]));
    assert_eq!(store.cache.hit_rate(), rate(1, 1));
    assert!(matches!(store.cache.get("artifact:alpha:1.0"), Lookup::Hit(_)));
}
