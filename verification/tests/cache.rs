use firehose_ingest::context_cache::ThreadContextCache;

#[test]
fn put_then_get_returns_value() {
    let mut cache = ThreadContextCache::new(8);
    cache.put("a".to_string(), "hello".to_string());
    assert_eq!(cache.get(&"a".to_string()), Some("hello".to_string()));
}

#[test]
fn get_of_absent_id_is_none() {
    let mut cache = ThreadContextCache::new(8);
    cache.put("a".to_string(), "hello".to_string());
    assert_eq!(cache.get(&"b".to_string()), None);
}

#[test]
fn eviction_after_capacity_plus_one_inserts() {
    let mut cache = ThreadContextCache::new(2);
    cache.put("k1".to_string(), "v1".to_string());
    cache.put("k2".to_string(), "v2".to_string());
    cache.put("k3".to_string(), "v3".to_string());
    assert_eq!(cache.get(&"k1".to_string()), None);
    assert_eq!(cache.get(&"k2".to_string()), Some("v2".to_string()));
    assert_eq!(cache.get(&"k3".to_string()), Some("v3".to_string()));
}

#[test]
fn get_refreshes_recency() {
    let mut cache = ThreadContextCache::new(2);
    cache.put("a".to_string(), "1".to_string());
    cache.put("b".to_string(), "2".to_string());
    // Reading `a` makes `b` the least recently used entry.
    assert_eq!(cache.get(&"a".to_string()), Some("1".to_string()));
    cache.put("c".to_string(), "3".to_string());
    assert_eq!(cache.get(&"b".to_string()), None);
    assert_eq!(cache.get(&"a".to_string()), Some("1".to_string()));
    assert_eq!(cache.get(&"c".to_string()), Some("3".to_string()));
}

#[test]
fn overwrite_keeps_single_entry() {
    let mut cache = ThreadContextCache::new(2);
    cache.put("k".to_string(), "old".to_string());
    cache.put("k".to_string(), "new".to_string());
    // The overwrite did not consume a second slot: one more key fits
    // without evicting `k`.
    cache.put("other".to_string(), "x".to_string());
    assert_eq!(cache.get(&"k".to_string()), Some("new".to_string()));
    assert_eq!(cache.get(&"other".to_string()), Some("x".to_string()));
}
