use mouscache::CacheFunc;

#[test]
fn memory_cache_test_hash_set() {
    let cache = mouscache::memory();

    let _ = cache.set_add("test_group", &["123321"]);

    assert!(cache.set_ismember("test_group", "123321").unwrap());
}
