use wxcore::tile_cache::TileCache;

#[test]
fn basic_put_get() {
    let mut cache = TileCache::new(1, 60);
    let data = vec![0x89, 0x50, 0x4E, 0x47];
    cache.put("hrrr", "CAPE", "surface", 0, 5, 8, 12, data.clone(), 1_000);
    let got = cache.get("hrrr", "CAPE", "surface", 0, 5, 8, 12, 2_000);
    assert_eq!(got, Some(data));
    let miss = cache.get("hrrr", "CAPE", "surface", 0, 5, 9, 12, 3_000);
    assert!(miss.is_none());
}

#[test]
fn ttl_expiry() {
    let mut cache = TileCache::new(1, 0);
    cache.put("hrrr", "T2", "2m", 1, 3, 2, 1, vec![1, 2, 3], 5_000);
    let got = cache.get("hrrr", "T2", "2m", 1, 3, 2, 1, 5_000);
    assert!(got.is_none());
}

#[test]
fn stats_and_clear() {
    let mut cache = TileCache::new(10, 300);
    cache.put("gfs", "TMP", "500mb", 6, 4, 1, 1, vec![0; 100], 10);
    cache.put("gfs", "TMP", "500mb", 6, 4, 1, 2, vec![0; 200], 20);
    let s = cache.stats(30);
    assert_eq!(s.entries, 2);
    assert_eq!(s.total_bytes, 300);
    cache.clear();
    let s = cache.stats(40);
    assert_eq!(s.entries, 0);
    assert_eq!(s.total_bytes, 0);
}

#[test]
fn eviction_under_pressure() {
    let mut cache = TileCache::new(0, 300);
    cache.put("hrrr", "CAPE", "sfc", 0, 5, 0, 0, vec![0; 100], 10);
    let s = cache.stats(20);
    assert_eq!(s.entries, 1);
}

#[test]
fn hit_miss_counters() {
    let mut cache = TileCache::new(1, 300);
    cache.put("hrrr", "CAPE", "sfc", 0, 5, 0, 0, vec![1], 10);
    let _ = cache.get("hrrr", "CAPE", "sfc", 0, 5, 0, 0, 11);
    let _ = cache.get("hrrr", "CAPE", "sfc", 0, 5, 1, 0, 12);
    let _ = cache.get("hrrr", "CAPE", "sfc", 0, 5, 0, 0, 13);
    let s = cache.stats(14);
    assert_eq!(s.hits, 2);
    assert_eq!(s.misses, 1);
}

#[test]
fn invalidate_by_model() {
    let mut cache = TileCache::new(10, 300);
    cache.put("hrrr", "CAPE", "sfc", 0, 5, 0, 0, vec![1], 10);
    cache.put("hrrr", "T2", "2m", 0, 5, 0, 0, vec![2], 11);
    cache.put("gfs", "CAPE", "sfc", 0, 5, 0, 0, vec![3], 12);
    let removed = cache.invalidate(Some("hrrr"), None, None);
    assert_eq!(removed, 2);
    let s = cache.stats(13);
    assert_eq!(s.entries, 1);
}

#[test]
fn cache_key_format() {
    assert_eq!(TileCache::key("hrrr", "CAPE", "sfc", 3, 5, 8, 12), "hrrr/CAPE/sfc/f03/5/8/12");
}

#[test]
fn put_replaces_existing_key() {
    let mut cache = TileCache::new(1, 300);
    cache.put("hrrr", "CAPE", "sfc", 0, 5, 0, 0, vec![1, 2], 10);
    cache.put("hrrr", "CAPE", "sfc", 0, 5, 0, 0, vec![3], 20);
    assert_eq!(cache.get("hrrr", "CAPE", "sfc", 0, 5, 0, 0, 30), Some(vec![3]));
    let s = cache.stats(30);
    assert_eq!(s.entries, 1);
    assert_eq!(s.total_bytes, 1);
}

#[test]
fn expiry_after_ttl_elapses() {
    let mut cache = TileCache::new(1, 2);
    cache.put("hrrr", "CAPE", "sfc", 0, 5, 0, 0, vec![7], 0);
    assert_eq!(cache.get("hrrr", "CAPE", "sfc", 0, 5, 0, 0, 1_999_999_999), Some(vec![7]));
    assert!(cache.get("hrrr", "CAPE", "sfc", 0, 5, 0, 0, 2_000_000_000).is_none());
    let s = cache.stats(3_000_000_000);
    assert_eq!(s.expired_entries, 1);
    assert_eq!(s.ttl_seconds, 2);
    assert_eq!(s.max_bytes, 1024 * 1024);
}

#[test]
fn oldest_tile_evicted_first() {
    let mut cache = TileCache::new(0, 300);
    cache.put("gfs", "TMP", "sfc", 0, 1, 0, 0, vec![0; 10], 10);
    cache.put("gfs", "TMP", "sfc", 0, 1, 0, 1, vec![0; 10], 20);
    assert!(cache.get("gfs", "TMP", "sfc", 0, 1, 0, 0, 30).is_none());
    assert_eq!(cache.get("gfs", "TMP", "sfc", 0, 1, 0, 1, 30), Some(vec![0; 10]));
}

#[test]
fn invalidate_by_var_and_level() {
    let mut cache = TileCache::new(10, 300);
    cache.put("hrrr", "CAPE", "sfc", 0, 5, 0, 0, vec![1], 10);
    cache.put("hrrr", "CAPE", "500mb", 0, 5, 0, 0, vec![2], 11);
    cache.put("gfs", "CAPE", "sfc", 0, 5, 0, 0, vec![3], 12);
    assert_eq!(cache.invalidate(Some("hrrr"), Some("CAPE"), Some("sfc")), 1);
    assert_eq!(cache.stats(13).entries, 2);
    assert_eq!(cache.invalidate(Some("nam"), None, None), 0);
    // A filter that is not given is skipped: any model matches.
    assert_eq!(cache.invalidate(None, Some("CAPE"), Some("sfc")), 1);
    assert_eq!(cache.stats(14).entries, 1);
    assert_eq!(cache.invalidate(None, None, None), 1);
    assert_eq!(cache.stats(15).entries, 0);
}
