use kubef::clients::ContextCache;

#[test]
fn cache_keeps_the_first_value_per_context() {
    let mut cache: ContextCache<u32> = ContextCache::new();
    assert_eq!(cache.get(&"a".to_string()), None);
    assert!(cache.insert("a".to_string(), 1));
    assert!(cache.insert("b".to_string(), 2));
    assert!(!cache.insert("a".to_string(), 3));
    assert_eq!(cache.get(&"a".to_string()), Some(&1));
    assert_eq!(cache.get(&"b".to_string()), Some(&2));
    assert_eq!(cache.get(&"c".to_string()), None);
}
