use pasua::cache::Cache;

fn encode<T: serde::Serialize>(v: &T) -> Vec<u8> {
    rmp_serde::to_vec(v).unwrap()
}

#[test]
fn round_trip() {
    let mut cache = Cache::new("cache.msgpack".to_string());
    let value = vec!["hello".to_string(), "world".to_string()];
    cache.put("/repo", "main", "feature", "foo.go", encode(&value));
    let bytes = cache.get("/repo", "main", "feature", "foo.go").unwrap();
    let got: Vec<String> = rmp_serde::from_slice(&bytes).unwrap();
    assert_eq!(got, value);
}

#[test]
fn miss_returns_none() {
    let cache = Cache::new("cache.msgpack".to_string());
    assert!(cache.get("/repo", "a", "b", "c.go").is_none());
}

#[test]
fn multiple_puts_accumulate() {
    let mut cache = Cache::new("cache.msgpack".to_string());
    cache.put("/repo", "a", "b", "f1.go", encode(&1u32));
    cache.put("/repo", "a", "b", "f2.go", encode(&2u32));
    // Both entries survive a reload from what is written back.
    let c2 = Cache::with_entries(cache.path().to_string(), cache.entries().clone());
    let one: u32 = rmp_serde::from_slice(&c2.get("/repo", "a", "b", "f1.go").unwrap()).unwrap();
    let two: u32 = rmp_serde::from_slice(&c2.get("/repo", "a", "b", "f2.go").unwrap()).unwrap();
    assert_eq!(one, 1);
    assert_eq!(two, 2);
}

#[test]
fn key_joins_with_pipes() {
    assert_eq!(Cache::key("/repo", "abc", "def", "src/a.rs"), "/repo|abc|def|src/a.rs");
}

#[test]
fn get_after_put_returns_the_bytes_and_replaces_older_ones() {
    let mut cache = Cache::new("p".to_string());
    cache.put("r", "b", "h", "f", vec![1, 2]);
    cache.put("r", "b", "h", "f", vec![3]);
    assert_eq!(cache.get("r", "b", "h", "f"), Some(vec![3]));
    assert_eq!(cache.entries().len(), 1);
}

#[test]
fn put_leaves_other_keys_alone() {
    let mut cache = Cache::new("p".to_string());
    cache.put("r", "b", "h", "f", vec![1]);
    cache.put("r", "b", "h", "g", vec![2]);
    assert_eq!(cache.get("r", "b", "h", "f"), Some(vec![1]));
    assert_eq!(cache.get("r", "b", "x", "f"), None);
}

#[test]
fn later_loaded_entry_wins() {
    let c = Cache::with_entries("p".to_string(), vec![("k|a|b|c".to_string(), vec![1]), ("k|a|b|c".to_string(), vec![2])]);
    assert_eq!(c.get("k", "a", "b", "c"), Some(vec![2]));
    assert_eq!(c.path(), "p");
}
