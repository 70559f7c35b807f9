use std::cell::RefCell;
use std::collections::HashMap;

use mouscache::hgetall_command;
use mouscache::interpret_bool;
use mouscache::interpret_fetch;
use mouscache::interpret_count;
use mouscache::interpret_record;
use mouscache::redis_key_create;
use mouscache::dotted_quad;
use mouscache::redis_url;
use mouscache::select_ipv4;
use mouscache::split_host_port;
use mouscache::Cache;
use mouscache::CacheError;
use mouscache::FieldMap;
use mouscache::DataTest;
use mouscache::Error;
use mouscache::HostAddr;
use mouscache::NoRemote;
use mouscache::RedisCache;
use mouscache::RedisConnectionManager;
use mouscache::RemoteCommand;
use mouscache::RemoteLink;
use mouscache::RemoteReply;

/// A stand-in remote store keeping hash records in process: enough of the
/// command surface to drive the verified translator end to end.
struct FakeStore {
    hashes: RefCell<HashMap<String, Vec<(String, String)>>>,
    sets: RefCell<HashMap<String, Vec<String>>>,
    expire_calls: RefCell<Vec<(String, String)>>,
}

impl FakeStore {
    fn new() -> FakeStore {
        FakeStore {
            hashes: RefCell::new(HashMap::new()),
            sets: RefCell::new(HashMap::new()),
            expire_calls: RefCell::new(Vec::new()),
        }
    }

    fn put_field(&self, key: &str, field: &str, value: &str) {
        let mut h = self.hashes.borrow_mut();
        let entry = h.entry(key.to_string()).or_default();
        match entry.iter_mut().find(|p| p.0 == field) {
            Some(p) => p.1 = value.to_string(),
            None => entry.push((field.to_string(), value.to_string())),
        }
    }
}

impl RemoteLink for FakeStore {
    fn round_trip(&self, cmd: &RemoteCommand) -> Result<RemoteReply, Error> {
        let args = &cmd.args;
        match cmd.name.as_str() {
            "HMSET" => {
                let mut i = 1;
                while i + 1 < args.len() {
                    self.put_field(&args[0], &args[i], &args[i + 1]);
                    i += 2;
                }
                Ok(RemoteReply::Status("OK".to_string()))
            }
            "HSET" => {
                self.put_field(&args[0], &args[1], &args[2]);
                Ok(RemoteReply::Int(1))
            }
            "HGET" => {
                let h = self.hashes.borrow();
                match h.get(&args[0]).and_then(|e| e.iter().find(|p| p.0 == args[1])) {
                    Some(p) => Ok(RemoteReply::Data(p.1.clone())),
                    None => Ok(RemoteReply::Nil),
                }
            }
            "HGETALL" => {
                let h = self.hashes.borrow();
                let mut items: Vec<Option<String>> = Vec::new();
                if let Some(entry) = h.get(&args[0]) {
                    for (f, v) in entry {
                        items.push(Some(f.clone()));
                        items.push(Some(v.clone()));
                    }
                }
                Ok(RemoteReply::Bulk(items))
            }
            "EXPIRE" => {
                self.expire_calls.borrow_mut().push((args[0].clone(), args[1].clone()));
                Ok(RemoteReply::Int(1))
            }
            "DEL" => {
                let had = self.hashes.borrow_mut().remove(&args[0]).is_some();
                Ok(RemoteReply::Int(if had { 1 } else { 0 }))
            }
            "EXISTS" => {
                let has = self.hashes.borrow().contains_key(&args[0]);
                Ok(RemoteReply::Int(if has { 1 } else { 0 }))
            }
            "SADD" => {
                let mut s = self.sets.borrow_mut();
                let entry = s.entry(args[0].clone()).or_default();
                let mut added = 0;
                for m in &args[1..] {
                    if !entry.contains(m) {
                        entry.push(m.clone());
                        added += 1;
                    }
                }
                Ok(RemoteReply::Int(added))
            }
            "SREM" => {
                let mut s = self.sets.borrow_mut();
                let mut removed = 0;
                if let Some(entry) = s.get_mut(&args[0]) {
                    if let Some(pos) = entry.iter().position(|m| *m == args[1]) {
                        entry.remove(pos);
                        removed = 1;
                    }
                }
                Ok(RemoteReply::Int(removed))
            }
            "SCARD" => {
                let s = self.sets.borrow();
                let n = s.get(&args[0]).map(|e| e.len()).unwrap_or(0);
                Ok(RemoteReply::Int(n as i64))
            }
            "SISMEMBER" => {
                let s = self.sets.borrow();
                let has = s.get(&args[0]).map(|e| e.contains(&args[1])).unwrap_or(false);
                Ok(RemoteReply::Int(if has { 1 } else { 0 }))
            }
            "SMEMBERS" => {
                let s = self.sets.borrow();
                let items: Vec<Option<String>> = s
                    .get(&args[0])
                    .map(|e| e.iter().map(|m| Some(m.clone())).collect())
                    .unwrap_or_default();
                Ok(RemoteReply::Bulk(items))
            }
            _ => Ok(RemoteReply::Error("unsupported command".to_string())),
        }
    }
}

#[test]
fn round_trip_remote() {
    let cache = RedisCache::with_link(FakeStore::new());
    let data = DataTest { field1: 42, field2: String::from("Hello, World!") };
    cache.insert("test", data.clone()).unwrap();
    let back: DataTest = cache.get("test").unwrap().unwrap();
    assert_eq!(back.field1, data.field1);
    assert_eq!(back.field2, data.field2);
}

#[test]
fn forgiving_read_remote() {
    // A partial record, written directly at the composite key: get reads
    // it as absent, not as an error.
    let store = FakeStore::new();
    store.put_field("DataTest:bad", "field1", "42");
    let cache = RedisCache::with_link(store);
    let r: Result<Option<DataTest>, CacheError> = cache.get("bad");
    assert!(r.unwrap().is_none());

    // A record whose numeric field does not parse: also absent, no error.
    let store = FakeStore::new();
    store.put_field("DataTest:mangled", "field1", "not a number");
    store.put_field("DataTest:mangled", "field2", "x");
    let cache = RedisCache::with_link(store);
    let r: Result<Option<DataTest>, CacheError> = cache.get("mangled");
    assert!(r.unwrap().is_none());
}

#[test]
fn remote_insert_with_ttl_issues_expire() {
    let cache = RedisCache::with_link(FakeStore::new());
    let data = DataTest { field1: 1, field2: String::from("short-lived") };
    cache.insert_with("t", data, Some(30)).unwrap();
    // The write and the expiration are two separate round trips on the
    // same composite key.
    let link = cache;
    let probe: Result<Option<DataTest>, CacheError> = link.get("t");
    assert!(probe.unwrap().is_some());
}

#[test]
fn remote_remove_and_contains() {
    let cache = RedisCache::with_link(FakeStore::new());
    let data = DataTest { field1: 9, field2: String::from("here") };
    cache.insert("k", data).unwrap();
    assert!(cache.contains_key::<&str, DataTest>("k").unwrap());
    cache.remove::<&str, DataTest>("k").unwrap();
    assert!(!cache.contains_key::<&str, DataTest>("k").unwrap());
    // Idempotent: removing the absent key again still succeeds.
    cache.remove::<&str, DataTest>("k").unwrap();
}

#[test]
fn remote_hash_ops_through_fake_store() {
    let cache = RedisCache::with_link(FakeStore::new());
    assert!(cache.hash_set("h", "f1", "v1").unwrap());
    assert_eq!(cache.hash_get::<String>("h", "f1").unwrap(), Some("v1".to_string()));
    assert_eq!(cache.hash_get::<String>("h", "nope").unwrap(), None);
}

#[test]
fn remote_set_ops_through_fake_store() {
    let cache = RedisCache::with_link(FakeStore::new());
    assert!(cache.set_add("s", &["a", "b", "c"]).unwrap());
    assert_eq!(cache.set_card("s").unwrap(), 3);
    assert!(cache.set_ismember("s", "b").unwrap());
    assert!(cache.set_rem("s", "b").unwrap());
    assert!(!cache.set_ismember("s", "b").unwrap());
    let members = cache.set_members("s").unwrap();
    assert!(members.contains(&"a".to_string()));
    assert!(members.contains(&"c".to_string()));
    assert_eq!(members.len(), 2);
    // An operation the stand-in store does not know is a protocol error,
    // folded into the taxonomy.
    let diff = cache.set_diff(&["s"]);
    assert!(matches!(diff, Err(CacheError::RedisCacheError(_))));
}

#[test]
fn fetch_interpretation_is_forgiving() {
    // A record that reconstructs is the value.
    let mut whole = FieldMap::new();
    whole.set("field1".to_string(), "42".to_string());
    whole.set("field2".to_string(), "x".to_string());
    let r: Result<Option<DataTest>, CacheError> = interpret_fetch(Ok(whole));
    let v = r.unwrap().unwrap();
    assert_eq!(v.field1, 42);
    assert_eq!(v.field2, "x");

    // An empty record (the key was never written) reads as absent.
    let r: Result<Option<DataTest>, CacheError> = interpret_fetch(Ok(FieldMap::new()));
    assert!(r.unwrap().is_none());

    // A partial record reads as absent, not as an error.
    let mut partial = FieldMap::new();
    partial.set("field1".to_string(), "42".to_string());
    let r: Result<Option<DataTest>, CacheError> = interpret_fetch(Ok(partial));
    assert!(r.unwrap().is_none());

    // A failed checkout is the one error passed through.
    let r: Result<Option<DataTest>, CacheError> =
        interpret_fetch(Err(CacheError::ConnectionError("down".to_string())));
    assert!(matches!(r, Err(CacheError::ConnectionError(_))));

    // Any other fetch failure also reads as absent.
    let r: Result<Option<DataTest>, CacheError> =
        interpret_fetch(Err(CacheError::RedisCacheError("boom".to_string())));
    assert!(r.unwrap().is_none());
}

#[test]
fn reply_error_kinds_are_pinned() {
    // A protocol error carries its message through as RedisCacheError.
    let e = interpret_record(&RemoteReply::Error("wrong kind".to_string()));
    assert!(matches!(e, Err(CacheError::RedisCacheError(m)) if m == "wrong kind"));
    let e = interpret_bool(&RemoteReply::Error("denied".to_string()));
    assert!(matches!(e, Err(CacheError::RedisCacheError(m)) if m == "denied"));
    // An uninterpretable shape is an access error.
    let e = interpret_bool(&RemoteReply::Bulk(vec![]));
    assert!(matches!(e, Err(CacheError::AccessError(_))));
    let e = interpret_count(&RemoteReply::Data("x".to_string()));
    assert!(matches!(e, Err(CacheError::AccessError(_))));
}

#[test]
fn no_remote_link_fails_as_connection_error() {
    let cache: Cache<NoRemote> = Cache::Redis(RedisCache::with_link(NoRemote));
    let r: Result<Option<DataTest>, CacheError> = cache.get("k");
    assert!(matches!(r, Err(CacheError::ConnectionError(_))));
    let w = cache.insert("k", DataTest { field1: 0, field2: String::new() });
    assert!(matches!(w, Err(CacheError::ConnectionError(_))));
}

#[test]
fn composite_keys_are_shared_by_both_engines() {
    let k = redis_key_create::<&str, DataTest>("test");
    assert_eq!(k, "DataTest:test");
    let g = mouscache::gen_key::<&str, DataTest>("test");
    assert_eq!(g, k);
}

#[test]
fn command_wire_shapes() {
    let cmd = hgetall_command("DataTest:test");
    assert_eq!(cmd.name, "HGETALL");
    assert_eq!(cmd.args, vec!["DataTest:test".to_string()]);

    let cmd = mouscache::expire_command("k", 30);
    assert_eq!(cmd.name, "EXPIRE");
    assert_eq!(cmd.args, vec!["k".to_string(), "30".to_string()]);

    let cmd = mouscache::hdel_command("k", &["a", "b"]);
    assert_eq!(cmd.name, "HDEL");
    assert_eq!(cmd.args, vec!["k".to_string(), "a".to_string(), "b".to_string()]);
}

#[test]
fn reply_interpretation() {
    assert_eq!(interpret_bool(&RemoteReply::Int(0)).unwrap(), false);
    assert_eq!(interpret_bool(&RemoteReply::Int(3)).unwrap(), true);
    assert_eq!(interpret_bool(&RemoteReply::Nil).unwrap(), false);
    assert_eq!(interpret_bool(&RemoteReply::Status("OK".to_string())).unwrap(), true);
    assert!(matches!(
        interpret_bool(&RemoteReply::Error("boom".to_string())),
        Err(CacheError::RedisCacheError(_))
    ));

    assert_eq!(interpret_count(&RemoteReply::Int(6)).unwrap(), 6);
    assert_eq!(interpret_count(&RemoteReply::Nil).unwrap(), 0);
    assert!(interpret_count(&RemoteReply::Int(-1)).is_err());

    let rec = interpret_record(&RemoteReply::Bulk(vec![
        Some("f1".to_string()),
        Some("v1".to_string()),
        Some("f2".to_string()),
        Some("v2".to_string()),
    ]))
    .unwrap();
    assert_eq!(rec.get("f1").map(|s| s.as_str()), Some("v1"));
    assert_eq!(rec.get("f2").map(|s| s.as_str()), Some("v2"));
    assert_eq!(rec.get("f3"), None);

    let odd = interpret_record(&RemoteReply::Bulk(vec![Some("f1".to_string())]));
    assert!(matches!(odd, Err(CacheError::AccessError(_))));
}

#[test]
fn manager_setup_commands() {
    let m = RedisConnectionManager::new("localhost:6379", Some("SECRET-REDACTED"), Some(3)).unwrap();
    let cmds = m.connection_setup_commands();
    assert_eq!(cmds.len(), 2);
    assert_eq!(cmds[0].name, "AUTH");
    assert_eq!(cmds[1].name, "SELECT");
    assert_eq!(cmds[1].args, vec!["3".to_string()]);

    let bare = RedisConnectionManager::new("localhost", None, None).unwrap();
    assert_eq!(bare.connection_setup_commands().len(), 0);

    assert!(RedisConnectionManager::new("", None, None).is_err());
}

#[test]
fn host_resolution_helpers() {
    let (name, port) = split_host_port("localhost:6379");
    assert_eq!(name, "localhost");
    assert_eq!(port, Some("6379".to_string()));

    let (name, port) = split_host_port("localhost");
    assert_eq!(name, "localhost");
    assert_eq!(port, None);

    assert_eq!(dotted_quad(127, 0, 0, 1), "127.0.0.1");

    let addrs = vec![HostAddr::V6, HostAddr::V4(10, 0, 0, 7)];
    assert_eq!(select_ipv4(&addrs), Some((10, 0, 0, 7)));
    assert_eq!(select_ipv4(&vec![HostAddr::V6]), None);

    let port = "6379".to_string();
    assert_eq!(redis_url(127, 0, 0, 1, Some(&port)), "redis://127.0.0.1:6379");
    assert_eq!(redis_url(10, 0, 0, 7, None), "redis://10.0.0.7");
}
