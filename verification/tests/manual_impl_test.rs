use mouscache::DataTest;

#[test]
fn memory_cache_test() {
    let data = DataTest { field1: 42, field2: String::from("Hello, World!") };

    let cache = mouscache::memory();

    let _ = cache.insert("test", data.clone());

    let data2: DataTest = cache.get("test").unwrap().unwrap();

    assert_eq!(data.field1, data2.field1);
    assert_eq!(data.field2, data2.field2);
}
