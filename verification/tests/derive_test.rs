use mouscache::DataTestDerive;

#[test]
fn memory_cache_test_derive() {
    let data = DataTestDerive {
        field1: 42,
        field2: String::from("Hello, World!"),
        field_uuid: String::from("a2f5c0d6-6191-4172-81c9-c3531df19407"),
    };

    let cache = mouscache::memory();

    let _ = cache.insert("test", data.clone());

    let data2: DataTestDerive = cache.get("test").unwrap().unwrap();

    assert_eq!(data.field1, data2.field1);
    assert_eq!(data.field2, data2.field2);
}
