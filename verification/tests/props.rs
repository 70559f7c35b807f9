use mouscache::memory;
use mouscache::parse_u64;
use mouscache::u64_to_string;
use mouscache::i64_to_string;
use mouscache::str_eq;
use mouscache::Cacheable;
use mouscache::CacheError;
use mouscache::CacheFunc;
use mouscache::DataTest;
use mouscache::DataTestExpires;
use mouscache::Expiration;
use mouscache::FieldMap;
use mouscache::Inner;
use mouscache::StringSet;

#[test]
fn round_trip_memory() {
    let data = DataTest { field1: 7, field2: String::from("seven") };
    let cache = memory();
    cache.insert("k", data.clone()).unwrap();
    let back: DataTest = cache.get("k").unwrap().unwrap();
    assert_eq!(back.field1, 7);
    assert_eq!(back.field2, "seven");
}

#[test]
fn idempotent_remove_memory() {
    let cache = memory();
    assert!(cache.remove::<&str, DataTest>("absent").is_ok());
    assert!(cache.remove::<&str, DataTest>("absent").is_ok());
    let data = DataTest { field1: 1, field2: String::from("x") };
    cache.insert("k", data).unwrap();
    assert!(cache.remove::<&str, DataTest>("k").is_ok());
    assert!(cache.remove::<&str, DataTest>("k").is_ok());
    let gone: Option<DataTest> = cache.get("k").unwrap();
    assert!(gone.is_none());
}

#[test]
fn expiration_deterministic() {
    // The sequential core takes the clock as an argument, so the lazy
    // expiration semantics can be checked without waiting.
    let mut inner = Inner::new();
    let data = DataTestExpires { field_temp: String::from("soon gone") };
    let rec = data.to_redis_obj();
    let t0: u64 = 1000;
    inner.obj_insert(String::from("DataTestExpires:exp"), rec, Some(Expiration::at(t0, 1)));
    // Immediately: present and readable.
    assert!(inner.obj_contains("DataTestExpires:exp"));
    assert!(inner.obj_get_at("DataTestExpires:exp", t0).is_some());
    // Still before the deadline.
    assert!(inner.obj_contains("DataTestExpires:exp"));
    // Past the deadline, before any read: presence still reports true.
    assert!(inner.obj_contains("DataTestExpires:exp"));
    // The read past the deadline returns nothing and purges the entry.
    assert!(inner.obj_get_at("DataTestExpires:exp", t0 + 2).is_none());
    assert!(!inner.obj_contains("DataTestExpires:exp"));
}

#[test]
fn expiration_wall_clock() {
    let data = DataTestExpires { field_temp: String::from("soon gone") };
    let cache = memory();
    cache.insert_with("exp", data.clone(), Some(1)).unwrap();
    let now: Option<DataTestExpires> = cache.get("exp").unwrap();
    assert!(now.is_some());
    assert!(cache.contains_key::<&str, DataTestExpires>("exp").unwrap());
    let start = std::time::Instant::now();
    while start.elapsed().as_millis() < 2100 {}
    // Past the deadline, before any read, presence still reports true:
    // the documented quirk of the lazy expiration design.
    assert!(cache.contains_key::<&str, DataTestExpires>("exp").unwrap());
    let later: Option<DataTestExpires> = cache.get("exp").unwrap();
    assert!(later.is_none());
    // The read purged the entry.
    assert!(!cache.contains_key::<&str, DataTestExpires>("exp").unwrap());
}

#[test]
fn hash_surface_scenario() {
    let cache = memory();
    assert!(cache.hash_set("h", "f1", "v1").unwrap());
    assert!(cache.hash_multiple_set("h", &[("f2", "v2"), ("f3", "v3")]).unwrap());
    assert_eq!(cache.hash_get::<String>("h", "f2").unwrap(), Some("v2".to_string()));
    assert_eq!(
        cache.hash_multiple_get("h", &["f1", "f3"]).unwrap(),
        vec![Some("v1".to_string()), Some("v3".to_string())]
    );
    assert!(cache.hash_delete("h", &["f3"]).unwrap());
    assert!(!cache.hash_exists("h", "f3").unwrap());
    assert!(cache.hash_set_if_not_exists("h", "f3", "1").unwrap());
    assert!(!cache.hash_set_if_not_exists("h", "f1", "0").unwrap());
    assert_eq!(cache.hash_len("h").unwrap(), 3);
}

#[test]
fn hash_surface_absent_key_defaults() {
    let cache = memory();
    assert_eq!(cache.hash_get::<String>("none", "f").unwrap(), None);
    assert_eq!(cache.hash_multiple_get("none", &["a", "b"]).unwrap(), vec![]);
    assert_eq!(cache.hash_keys("none").unwrap(), Vec::<String>::new());
    assert_eq!(cache.hash_values("none").unwrap(), Vec::<String>::new());
    assert_eq!(cache.hash_len("none").unwrap(), 0);
    assert!(!cache.hash_exists("none", "f").unwrap());
    assert!(cache.hash_delete("none", &["f"]).unwrap());
}

#[test]
fn set_algebra_scenario() {
    let cache = memory();
    assert!(cache.set_add("s1", &[1, 2, 3, 4, 5]).unwrap());
    assert!(cache.set_add("s2", &[3, 4, 5, 6, 7]).unwrap());
    assert!(cache.set_add("s3", &[5, 6, 7, 8, 9]).unwrap());
    assert_eq!(cache.set_card("s1").unwrap(), 5);
    assert!(cache.set_rem("s2", 3).unwrap());
    assert_eq!(cache.set_card("s2").unwrap(), 4);
    assert_eq!(cache.set_unionstore("u", &["s2", "s3"]).unwrap(), 6);
    assert!(cache.set_move("u", "s1", 9).unwrap());
    assert!(cache.set_ismember("s1", 9).unwrap());
}

#[test]
fn set_surface_absent_key_defaults() {
    let cache = memory();
    assert_eq!(cache.set_card("none").unwrap(), 0);
    assert!(!cache.set_ismember("none", "x").unwrap());
    assert_eq!(cache.set_members("none").unwrap(), Vec::<String>::new());
    assert!(!cache.set_rem("none", "x").unwrap());
    assert!(!cache.set_move("none", "other", "x").unwrap());
    assert_eq!(cache.set_diff(&["none", "other"]).unwrap(), Vec::<String>::new());
    assert_eq!(cache.set_inter(&["none"]).unwrap(), Vec::<String>::new());
    assert_eq!(cache.set_union(&[]).unwrap(), Vec::<String>::new());
}

#[test]
fn clones_share_one_engine() {
    let data = DataTest { field1: 42, field2: String::from("shared") };
    let cache = memory();
    let other = cache.clone();
    other.insert("test", data).unwrap();
    let seen: DataTest = cache.get("test").unwrap().unwrap();
    assert_eq!(seen.field1, 42);
    assert_eq!(seen.field2, "shared");
}

#[test]
fn hash_get_parse_failure_is_an_error() {
    let cache = memory();
    cache.hash_set("h", "f", "not a number").unwrap();
    let r = cache.hash_get::<u64>("h", "f");
    assert!(matches!(r, Err(CacheError::Other(_))));
}

#[test]
fn decimal_formatting_and_parsing() {
    assert_eq!(u64_to_string(0), "0");
    assert_eq!(u64_to_string(7), "7");
    assert_eq!(u64_to_string(12345), "12345");
    assert_eq!(u64_to_string(u64::MAX), "18446744073709551615");
    assert_eq!(i64_to_string(-7), "-7");
    assert_eq!(i64_to_string(0), "0");
    assert_eq!(i64_to_string(i64::MIN), "-9223372036854775808");

    assert_eq!(parse_u64("42"), Some(42));
    assert_eq!(parse_u64("042"), Some(42));
    assert_eq!(parse_u64("0"), Some(0));
    assert_eq!(parse_u64(""), None);
    assert_eq!(parse_u64("4x2"), None);
    assert_eq!(parse_u64("-4"), None);
    assert_eq!(parse_u64("18446744073709551615"), Some(u64::MAX));
    assert_eq!(parse_u64("18446744073709551616"), None);
}

#[test]
fn str_eq_compares_content() {
    assert!(str_eq("abc", "abc"));
    assert!(!str_eq("abc", "abd"));
    assert!(!str_eq("abc", "ab"));
    assert!(str_eq("", ""));
}

#[test]
fn field_map_operations() {
    let mut fm = FieldMap::new();
    assert_eq!(fm.len(), 0);
    fm.set(String::from("a"), String::from("1"));
    fm.set(String::from("b"), String::from("2"));
    fm.set(String::from("a"), String::from("3"));
    assert_eq!(fm.len(), 2);
    assert_eq!(fm.get("a").map(|s| s.as_str()), Some("3"));
    assert_eq!(fm.get("b").map(|s| s.as_str()), Some("2"));
    assert_eq!(fm.get("c"), None);
    assert!(fm.contains_field("a"));
    fm.remove("a");
    assert!(!fm.contains_field("a"));
    assert_eq!(fm.len(), 1);
    fm.remove("absent");
    assert_eq!(fm.len(), 1);
    let fm2 = fm.clone();
    assert_eq!(fm2.get("b").map(|s| s.as_str()), Some("2"));
    assert_eq!(fm.fields(), vec!["b".to_string()]);
    assert_eq!(fm.values(), vec!["2".to_string()]);
}

#[test]
fn string_set_operations() {
    let mut s = StringSet::new();
    assert_eq!(s.len(), 0);
    assert!(s.insert(String::from("x")));
    assert!(!s.insert(String::from("x")));
    assert!(s.insert(String::from("y")));
    assert_eq!(s.len(), 2);
    assert!(s.contains("x"));
    assert!(s.remove("x"));
    assert!(!s.remove("x"));
    assert!(!s.contains("x"));
    let mut t = StringSet::new();
    t.insert(String::from("y"));
    t.insert(String::from("z"));
    let mut u = s.clone();
    u.union_with(&t);
    assert_eq!(u.len(), 2);
    u.subtract(&t);
    assert_eq!(u.len(), 0);
    let mut w = t.clone();
    w.intersect(&s);
    assert_eq!(w.len(), 1);
    assert!(w.contains("y"));
}

#[test]
fn whole_record_hash_surface() {
    let cache = memory();
    let data = DataTest { field1: 5, field2: String::from("five") };
    assert!(cache.hash_set_all("whole", data).unwrap());
    let back: DataTest = cache.hash_get_all("whole").unwrap().unwrap();
    assert_eq!(back.field1, 5);
    assert_eq!(back.field2, "five");
}

#[test]
fn inner_auto_vivify() {
    let mut inner = Inner::new();
    assert!(inner.ensure_hash_exists("h").is_ok());
    assert_eq!(inner.hash_len("h"), 0);
    assert!(!inner.set_exists("s"));
    assert!(inner.ensure_set_exists("s").is_ok());
    assert!(inner.set_exists("s"));
    assert_eq!(inner.set_card("s"), 0);
}

#[test]
fn record_contract_failures() {
    let mut partial = FieldMap::new();
    partial.set(String::from("field1"), String::from("42"));
    let missing = <DataTest as Cacheable>::from_redis_obj(&partial);
    assert!(matches!(missing, Err(CacheError::AccessError(_))));

    let mut mangled = FieldMap::new();
    mangled.set(String::from("field1"), String::from("not a number"));
    mangled.set(String::from("field2"), String::from("x"));
    let bad = <DataTest as Cacheable>::from_redis_obj(&mangled);
    assert!(matches!(bad, Err(CacheError::AccessError(_))));

    let mut oversize = FieldMap::new();
    oversize.set(String::from("field1"), String::from("70000"));
    oversize.set(String::from("field2"), String::from("x"));
    let wide = <DataTest as Cacheable>::from_redis_obj(&oversize);
    assert!(matches!(wide, Err(CacheError::AccessError(_))));
}

#[test]
fn error_descriptions() {
    assert_eq!(CacheError::InsertionError("a".to_string()).describe(), "a");
    assert_eq!(CacheError::DeletionError("b".to_string()).describe(), "b");
    assert_eq!(CacheError::AccessError("c".to_string()).describe(), "c");
    assert_eq!(CacheError::ConnectionError("d".to_string()).describe(), "d");
    assert_eq!(CacheError::Other("e".to_string()).describe(), "e");
    assert_eq!(CacheError::RedisCacheError("f".to_string()).describe(), "f");
}

#[test]
fn expiration_wall_clock_constructor() {
    // A fresh thousand-second expiration cannot already have passed.
    let e = Expiration::new(1000);
    assert!(!e.is_expired());
}

#[test]
fn effective_ttl_prefers_the_explicit_argument() {
    assert_eq!(mouscache::effective_ttl(Some(5), Some(1)), Some(5));
    assert_eq!(mouscache::effective_ttl(Some(5), None), Some(5));
    assert_eq!(mouscache::effective_ttl(None, Some(1)), Some(1));
    assert_eq!(mouscache::effective_ttl(None, None), None);
}

#[test]
fn insert_uses_the_objects_own_ttl() {
    // DataTestExpires asks for a one-second life; a plain insert honors it,
    // checked on the sequential core with explicit times.
    let mut inner = Inner::new();
    let data = DataTestExpires { field_temp: String::from("own ttl") };
    let ttl = mouscache::effective_ttl(None, data.expires_after());
    assert_eq!(ttl, Some(1));
    let rec = data.to_redis_obj();
    inner.obj_insert(String::from("DataTestExpires:own"), rec, Some(Expiration::at(500, 1)));
    assert!(inner.obj_get_at("DataTestExpires:own", 500).is_some());
    assert!(inner.obj_get_at("DataTestExpires:own", 502).is_none());
}

#[test]
fn expiration_boundaries() {
    let e = Expiration::at(100, 5);
    assert!(!e.expired_at(100));
    assert!(!e.expired_at(104));
    assert!(e.expired_at(105));
    assert!(e.expired_at(200));
    let never = Expiration::at(u64::MAX, 1);
    assert!(!never.expired_at(u64::MAX - 1));
}
