//! A uniform caching layer: typed domain objects are stored and retrieved
//! through one API whether the backing store is an in-process map or a
//! remote hash/set command surface.

pub mod commands;
pub mod error;
pub mod laws;
pub mod memory_cache;
pub mod models;
pub mod record;
pub mod redis_cache;
pub mod strings;
pub mod stringset;

pub use commands::auth_command;
pub use commands::del_command;
pub use commands::exists_command;
pub use commands::expire_command;
pub use commands::hdel_command;
pub use commands::hexists_command;
pub use commands::hget_command;
pub use commands::hgetall_command;
pub use commands::hkeys_command;
pub use commands::hlen_command;
pub use commands::hmget_command;
pub use commands::hmset_command;
pub use commands::hset_command;
pub use commands::hsetnx_command;
pub use commands::hvals_command;
pub use commands::interpret_bool;
pub use commands::interpret_count;
pub use commands::interpret_ok;
pub use commands::interpret_opt_string;
pub use commands::interpret_opt_string_list;
pub use commands::interpret_record;
pub use commands::interpret_string_list;
pub use commands::sadd_command;
pub use commands::scard_command;
pub use commands::sdiff_command;
pub use commands::sdiffstore_command;
pub use commands::select_command;
pub use commands::sinter_command;
pub use commands::sinterstore_command;
pub use commands::sismember_command;
pub use commands::smembers_command;
pub use commands::smove_command;
pub use commands::srem_command;
pub use commands::sunion_command;
pub use commands::sunionstore_command;
pub use commands::RemoteCommand;
pub use commands::RemoteReply;
pub use error::CacheError;
pub use memory_cache::now_seconds;
pub use memory_cache::EntryModel;
pub use redis_cache::dotted_quad;
pub use redis_cache::redis_hash_get_all;
pub use redis_cache::redis_hash_set_multiple;
pub use redis_cache::redis_hash_set_multiple_with_expire;
pub use redis_cache::redis_delete;
pub use redis_cache::redis_key_create;
pub use redis_cache::redis_key_exists;
pub use redis_cache::redis_url;
pub use redis_cache::select_ipv4;
pub use redis_cache::split_host_port;
pub use strings::parse_u64;
pub use strings::str_eq;
pub use strings::u64_to_string;
pub use strings::i64_to_string;
pub use redis_cache::interpret_fetch;
pub use redis_cache::spec_forgiving_read;
pub use laws::lemma_expiration;
pub use laws::lemma_memory_insert_get_round_trip;
pub use laws::lemma_remote_insert_get_round_trip;
pub use laws::lemma_remove_idempotent;
pub use memory_cache::Expiration;
pub use memory_cache::MemoryCache;
pub use memory_cache::Inner;
pub use models::DataTest;
pub use models::DataTestDerive;
pub use models::DataTestExpires;
pub use record::FieldMap;
pub use redis_cache::Error;
pub use redis_cache::HostAddr;
pub use redis_cache::NoRemote;
pub use redis_cache::RedisCache;
pub use redis_cache::RedisConnectionManager;
pub use redis_cache::RemoteLink;
pub use stringset::StringSet;
pub use strings::FromCacheString;
pub use strings::ToCacheString;

use vstd::prelude::*;
use vstd::string::StringExecFns;

verus! {

/// The composite key addressing a typed object: `"<ModelName>:<InstanceKey>"`.
pub open spec fn spec_composite_key(model: Seq<char>, key: Seq<char>) -> Seq<char> {
    model + seq![':'] + key
}

/// The data contract a storable type satisfies: a static model name, a
/// conversion to a flat string record, a conversion back, and an optional
/// per-instance time to live. The contract carries its own law: parsing the
/// record of a value gives that value back (`lemma_round_trip`), so a
/// store-then-load round trip through either engine is lossless.
///
/// The contract is stated over `DeepView`: two values with the same deep
/// view carry the same data, whatever allocations hold it.
pub trait Cacheable: Sized + DeepView {
    /// The model name, a compile-time constant per type; it partitions the
    /// key space so that distinct types never share a composite key.
    spec fn spec_model_name() -> Seq<char>;

    /// The flat record representing a value with deep view `v`.
    spec fn spec_record_of(v: Self::V) -> Map<Seq<char>, Seq<char>>;

    /// The exact outcome of reading a flat record back: the deep view of
    /// the reconstructed value, or `None` when a required field is missing
    /// or does not parse.
    spec fn spec_parse_record(rec: Map<Seq<char>, Seq<char>>) -> Option<Self::V>;

    /// The time to live this instance asks for, if any.
    spec fn spec_expires_after(&self) -> Option<usize>;

    /// The model name.
    fn model_name() -> (r: &'static str)
        ensures
            r@ == Self::spec_model_name(),
    ;

    /// Converts the value into its flat record.
    fn to_redis_obj(&self) -> (r: FieldMap)
        ensures
            r.wf(),
            r@ == Self::spec_record_of(self.deep_view()),
    ;

    /// Reconstructs a value from a flat record, failing when a required
    /// field is missing or fails to parse into its target type.
    fn from_redis_obj(rec: &FieldMap) -> (r: Result<Self, CacheError>)
        requires
            rec.wf(),
        ensures
            match r {
                Ok(x) => Self::spec_parse_record(rec@) == Some(x.deep_view()),
                Err(e) => Self::spec_parse_record(rec@) is None && e is AccessError,
            },
    ;

    /// The time to live this instance asks for: `None` means no expiration.
    fn expires_after(&self) -> (r: Option<usize>)
        ensures
            r == self.spec_expires_after(),
    ;

    /// The record contract's invariant: for every value, reading its own
    /// record back reconstructs the value. Implementations with non-string
    /// fields must therefore format and parse them losslessly.
    proof fn lemma_round_trip(v: Self::V)
        ensures
            Self::spec_parse_record(Self::spec_record_of(v)) == Some(v),
    ;
}

/// Builds the composite key `"<ModelName>:<InstanceKey>"` for type `O`.
pub fn gen_key<K: ToCacheString, O: Cacheable>(key: K) -> (r: String)
    ensures
        r@ == spec_composite_key(O::spec_model_name(), key.spec_string()),
{
    let mut s = String::from_str(O::model_name());
    s.append(":");
    let k = key.to_cache_string();
    s.append(k.as_str());
    proof {
        reveal_strlit(":");
        assert(s@ =~= spec_composite_key(O::spec_model_name(), key.spec_string()));
    }
    s
}

/// The effective time to live of an insert: the explicit argument when
/// present, else the object's own accessor value.
pub fn effective_ttl(explicit: Option<usize>, own: Option<usize>) -> (r: Option<usize>)
    ensures
        r == if explicit is Some {
            explicit
        } else {
            own
        },
{
    match explicit {
        Some(t) => Some(t),
        None => own,
    }
}

/// The hash/set command surface both engines share: every operation is
/// available through one handle whichever backend is active.
pub trait CacheFunc {
    /// Deletes fields of a hash record, each idempotently.
    fn hash_delete(&self, key: &str, fields: &[&str]) -> Result<bool, CacheError>;

    /// Whether a field of a hash record is present.
    fn hash_exists(&self, key: &str, field: &str) -> Result<bool, CacheError>;

    /// Reads one field of a hash record and parses it.
    fn hash_get<T: FromCacheString>(&self, key: &str, field: &str) -> Result<
        Option<T>,
        CacheError,
    >;

    /// Loads a whole hash record as a typed object.
    fn hash_get_all<T: Cacheable + Clone>(&self, key: &str) -> Result<Option<T>, CacheError>;

    /// The field names of a hash record.
    fn hash_keys(&self, key: &str) -> Result<Vec<String>, CacheError>;

    /// The number of fields of a hash record.
    fn hash_len(&self, key: &str) -> Result<usize, CacheError>;

    /// Reads several fields of a hash record.
    fn hash_multiple_get(&self, key: &str, fields: &[&str]) -> Result<
        Vec<Option<String>>,
        CacheError,
    >;

    /// Sets several fields of a hash record in order.
    fn hash_multiple_set<V: ToCacheString>(&self, key: &str, fv_pairs: &[(&str, V)]) -> Result<
        bool,
        CacheError,
    >;

    /// Sets one field of a hash record.
    fn hash_set<V: ToCacheString>(&self, key: &str, field: &str, value: V) -> Result<
        bool,
        CacheError,
    >;

    /// Stores a whole object as a hash record.
    fn hash_set_all<T: Cacheable + Clone>(&self, key: &str, cacheable: T) -> Result<
        bool,
        CacheError,
    >;

    /// Sets a field of a hash record only when absent.
    fn hash_set_if_not_exists<V: ToCacheString>(&self, key: &str, field: &str, value: V) -> Result<
        bool,
        CacheError,
    >;

    /// The values of a hash record.
    fn hash_values(&self, key: &str) -> Result<Vec<String>, CacheError>;

    /// Adds members to a set record.
    fn set_add<V: ToCacheString>(&self, key: &str, members: &[V]) -> Result<bool, CacheError>;

    /// The cardinality of a set record.
    fn set_card(&self, key: &str) -> Result<u64, CacheError>;

    /// The members of the first named set that none of the others has.
    fn set_diff(&self, keys: &[&str]) -> Result<Vec<String>, CacheError>;

    /// Stores the difference of the named sets under a new key.
    fn set_diffstore(&self, diff_name: &str, keys: &[&str]) -> Result<u64, CacheError>;

    /// The members common to all the named sets.
    fn set_inter(&self, keys: &[&str]) -> Result<Vec<String>, CacheError>;

    /// Stores the intersection of the named sets under a new key.
    fn set_interstore(&self, inter_name: &str, keys: &[&str]) -> Result<u64, CacheError>;

    /// Whether a member is in a set record.
    fn set_ismember<V: ToCacheString>(&self, key: &str, member: V) -> Result<bool, CacheError>;

    /// The members of a set record.
    fn set_members(&self, key: &str) -> Result<Vec<String>, CacheError>;

    /// Moves a member from one set record to another.
    fn set_move<V: ToCacheString>(&self, key1: &str, key2: &str, member: V) -> Result<
        bool,
        CacheError,
    >;

    /// Removes a member from a set record.
    fn set_rem<V: ToCacheString>(&self, key: &str, member: V) -> Result<bool, CacheError>;

    /// The members under any of the named sets.
    fn set_union(&self, keys: &[&str]) -> Result<Vec<String>, CacheError>;

    /// Stores the union of the named sets under a new key.
    fn set_unionstore(&self, union_name: &str, keys: &[&str]) -> Result<u64, CacheError>;
}

/// The cache facade: one handle over exactly one engine, in-process or
/// remote, dispatching every call to whichever is active. It is cheaply
/// cloneable; clones share the engine's state.
pub enum Cache<R: RemoteLink> {
    /// The in-process engine.
    Memory(MemoryCache),
    /// The remote engine, over the application's link.
    Redis(RedisCache<R>),
}

impl<R: RemoteLink + Clone> Clone for Cache<R> {
    /// A clone shares the engine rather than copying any stored data; a
    /// clone of an in-process handle is the same handle.
    fn clone(&self) -> (r: Self)
        ensures
            *self is Memory ==> r == *self,
            (r is Memory) == (*self is Memory),
    {
        match self {
            Cache::Memory(c) => Cache::Memory(c.clone()),
            Cache::Redis(c) => Cache::Redis(c.clone()),
        }
    }
}

impl<R: RemoteLink> Cache<R> {
    /// Stores `obj` under its composite key, overwriting unconditionally;
    /// the expiration comes from the object's own accessor. On the
    /// in-process engine this never fails.
    pub fn insert<K: ToCacheString, O: Cacheable>(&self, key: K, obj: O) -> (r: Result<
        (),
        CacheError,
    >)
        ensures
            *self is Memory ==> r is Ok,
            r matches Err(e) ==> (e is ConnectionError || e is RedisCacheError),
    {
        match self {
            Cache::Memory(c) => c.insert(key, obj),
            Cache::Redis(c) => c.insert(key, obj),
        }
    }

    /// Stores `obj` under its composite key with an explicit expiration
    /// overriding the object's own. On the remote engine a time to live
    /// costs a second round trip, and the pair is not atomic.
    pub fn insert_with<K: ToCacheString, O: Cacheable>(
        &self,
        key: K,
        obj: O,
        expires_after: Option<usize>,
    ) -> (r: Result<(), CacheError>)
        ensures
            *self is Memory ==> r is Ok,
            r matches Err(e) ==> (e is ConnectionError || e is RedisCacheError),
    {
        match self {
            Cache::Memory(c) => c.insert_with(key, obj, expires_after),
            Cache::Redis(c) => c.insert_with(key, obj, expires_after),
        }
    }

    /// Loads the object stored under the composite key of `key` and `O`.
    /// Whatever engine answered, a value handed back reads back from a
    /// record that the contract of `O` produced.
    pub fn get<K: ToCacheString, O: Cacheable>(&self, key: K) -> (r: Result<Option<O>, CacheError>)
        ensures
            match r {
                Ok(Some(v)) => exists|rec: Map<Seq<char>, Seq<char>>|
                    #[trigger] O::spec_parse_record(rec) == Some(v.deep_view()),
                Ok(None) => true,
                Err(e) => {
                    &&& *self is Memory ==> e is AccessError
                    &&& *self is Redis ==> e is ConnectionError
                },
            },
    {
        match self {
            Cache::Memory(c) => {
                let r = c.get::<K, O>(key);
                proof {
                    match r {
                        Ok(Some(ref v)) => {
                            let k = spec_composite_key(O::spec_model_name(), key.spec_string());
                            let (objs, now) = choose|
                                objs: Map<Seq<char>, crate::memory_cache::EntryModel>,
                                now: int,
                            |
                                {
                                    &&& #[trigger] crate::memory_cache::spec_obj_lookup(
                                        objs,
                                        k,
                                        now,
                                    ) matches Some(rec)
                                    &&& O::spec_parse_record(rec) == Some(v.deep_view())
                                };
                            let rec = crate::memory_cache::spec_obj_lookup(objs, k, now)->Some_0;
                            assert(O::spec_parse_record(rec) == Some(v.deep_view()));
                        },
                        _ => {},
                    }
                }
                r
            },
            Cache::Redis(c) => {
                let r = c.get::<K, O>(key);
                proof {
                    match r {
                        Ok(Some(ref v)) => {
                            let rep = choose|rep: crate::commands::RemoteReply|
                                {
                                    &&& #[trigger] crate::commands::spec_reply_record(rep)
                                        matches Some(rec)
                                    &&& O::spec_parse_record(rec) == Some(v.deep_view())
                                };
                            let rec = crate::commands::spec_reply_record(rep)->Some_0;
                            assert(O::spec_parse_record(rec) == Some(v.deep_view()));
                        },
                        _ => {},
                    }
                }
                r
            },
        }
    }

    /// Whether the composite key of `key` and `O` is present, as stored:
    /// the in-process engine does not consult expiration here.
    pub fn contains_key<K: ToCacheString, O: Cacheable>(&self, key: K) -> (r: Result<
        bool,
        CacheError,
    >)
        ensures
            *self is Memory ==> r is Ok,
    {
        match self {
            Cache::Memory(c) => c.contains_key::<K, O>(key),
            Cache::Redis(c) => c.contains_key::<K, O>(key),
        }
    }

    /// Deletes the composite key of `key` and `O`; removing an absent key
    /// is a success no-op. On the in-process engine this never fails.
    pub fn remove<K: ToCacheString, O: Cacheable>(&self, key: K) -> (r: Result<(), CacheError>)
        ensures
            *self is Memory ==> r is Ok,
            r matches Err(e) ==> (e is ConnectionError || e is RedisCacheError),
    {
        match self {
            Cache::Memory(c) => c.remove::<K, O>(key),
            Cache::Redis(c) => c.remove::<K, O>(key),
        }
    }
}

impl<R: RemoteLink> CacheFunc for Cache<R> {
    fn hash_delete(&self, key: &str, fields: &[&str]) -> (r: Result<bool, CacheError>)
        ensures
            *self is Memory ==> r == Ok::<bool, CacheError>(true),
    {
        match self {
            Cache::Memory(c) => c.hash_delete(key, fields),
            Cache::Redis(c) => c.hash_delete(key, fields),
        }
    }

    fn hash_exists(&self, key: &str, field: &str) -> (r: Result<bool, CacheError>)
        ensures
            *self is Memory ==> r is Ok,
    {
        match self {
            Cache::Memory(c) => c.hash_exists(key, field),
            Cache::Redis(c) => c.hash_exists(key, field),
        }
    }

    fn hash_get<T: FromCacheString>(&self, key: &str, field: &str) -> (r: Result<
        Option<T>,
        CacheError,
    >)
        ensures
            *self is Memory ==> (r matches Err(e) ==> e is Other),
    {
        match self {
            Cache::Memory(c) => c.hash_get(key, field),
            Cache::Redis(c) => c.hash_get(key, field),
        }
    }

    fn hash_get_all<T: Cacheable + Clone>(&self, key: &str) -> (r: Result<Option<T>, CacheError>)
        ensures
            r matches Ok(Some(v)) ==> exists|rec: Map<Seq<char>, Seq<char>>|
                #[trigger] T::spec_parse_record(rec) == Some(v.deep_view()),
    {
        match self {
            Cache::Memory(c) => {
                let r = c.hash_get_all::<T>(key);
                proof {
                    match r {
                        Ok(Some(ref v)) => {
                            let k = spec_composite_key(T::spec_model_name(), key@);
                            let (objs, now) = choose|
                                objs: Map<Seq<char>, crate::memory_cache::EntryModel>,
                                now: int,
                            |
                                {
                                    &&& #[trigger] crate::memory_cache::spec_obj_lookup(
                                        objs,
                                        k,
                                        now,
                                    ) matches Some(rec)
                                    &&& T::spec_parse_record(rec) == Some(v.deep_view())
                                };
                            let rec = crate::memory_cache::spec_obj_lookup(objs, k, now)->Some_0;
                            assert(T::spec_parse_record(rec) == Some(v.deep_view()));
                        },
                        _ => {},
                    }
                }
                r
            },
            Cache::Redis(c) => {
                let r = c.hash_get_all::<T>(key);
                proof {
                    match r {
                        Ok(Some(ref v)) => {
                            let rep = choose|rep: crate::commands::RemoteReply|
                                {
                                    &&& #[trigger] crate::commands::spec_reply_record(rep)
                                        matches Some(rec)
                                    &&& T::spec_parse_record(rec) == Some(v.deep_view())
                                };
                            let rec = crate::commands::spec_reply_record(rep)->Some_0;
                            assert(T::spec_parse_record(rec) == Some(v.deep_view()));
                        },
                        _ => {},
                    }
                }
                r
            },
        }
    }

    fn hash_keys(&self, key: &str) -> (r: Result<Vec<String>, CacheError>)
        ensures
            *self is Memory ==> r is Ok && (r matches Ok(ks)
                ==> ks.deep_view().no_duplicates()),
    {
        match self {
            Cache::Memory(c) => c.hash_keys(key),
            Cache::Redis(c) => c.hash_keys(key),
        }
    }

    fn hash_len(&self, key: &str) -> (r: Result<usize, CacheError>)
        ensures
            *self is Memory ==> r is Ok,
    {
        match self {
            Cache::Memory(c) => c.hash_len(key),
            Cache::Redis(c) => c.hash_len(key),
        }
    }

    fn hash_multiple_get(&self, key: &str, fields: &[&str]) -> (r: Result<
        Vec<Option<String>>,
        CacheError,
    >)
        ensures
            *self is Memory ==> r is Ok,
    {
        match self {
            Cache::Memory(c) => c.hash_multiple_get(key, fields),
            Cache::Redis(c) => c.hash_multiple_get(key, fields),
        }
    }

    fn hash_multiple_set<V: ToCacheString>(&self, key: &str, fv_pairs: &[(&str, V)]) -> (r: Result<
        bool,
        CacheError,
    >)
        ensures
            *self is Memory ==> r == Ok::<bool, CacheError>(true),
    {
        match self {
            Cache::Memory(c) => c.hash_multiple_set(key, fv_pairs),
            Cache::Redis(c) => c.hash_multiple_set(key, fv_pairs),
        }
    }

    fn hash_set<V: ToCacheString>(&self, key: &str, field: &str, value: V) -> (r: Result<
        bool,
        CacheError,
    >)
        ensures
            *self is Memory ==> r == Ok::<bool, CacheError>(true),
    {
        match self {
            Cache::Memory(c) => c.hash_set(key, field, value),
            Cache::Redis(c) => c.hash_set(key, field, value),
        }
    }

    fn hash_set_all<T: Cacheable + Clone>(&self, key: &str, cacheable: T) -> (r: Result<
        bool,
        CacheError,
    >)
        ensures
            *self is Memory ==> r is Ok,
    {
        match self {
            Cache::Memory(c) => c.hash_set_all(key, cacheable),
            Cache::Redis(c) => c.hash_set_all(key, cacheable),
        }
    }

    fn hash_set_if_not_exists<V: ToCacheString>(&self, key: &str, field: &str, value: V) -> (r:
        Result<bool, CacheError>)
        ensures
            *self is Memory ==> r is Ok,
    {
        match self {
            Cache::Memory(c) => c.hash_set_if_not_exists(key, field, value),
            Cache::Redis(c) => c.hash_set_if_not_exists(key, field, value),
        }
    }

    fn hash_values(&self, key: &str) -> (r: Result<Vec<String>, CacheError>)
        ensures
            *self is Memory ==> r is Ok,
    {
        match self {
            Cache::Memory(c) => c.hash_values(key),
            Cache::Redis(c) => c.hash_values(key),
        }
    }

    fn set_add<V: ToCacheString>(&self, key: &str, members: &[V]) -> (r: Result<bool, CacheError>)
        ensures
            *self is Memory ==> r == Ok::<bool, CacheError>(true),
    {
        match self {
            Cache::Memory(c) => c.set_add(key, members),
            Cache::Redis(c) => c.set_add(key, members),
        }
    }

    fn set_card(&self, key: &str) -> (r: Result<u64, CacheError>)
        ensures
            *self is Memory ==> r is Ok,
    {
        match self {
            Cache::Memory(c) => c.set_card(key),
            Cache::Redis(c) => c.set_card(key),
        }
    }

    fn set_diff(&self, keys: &[&str]) -> (r: Result<Vec<String>, CacheError>)
        ensures
            *self is Memory ==> r is Ok && (r matches Ok(ms)
                ==> ms.deep_view().no_duplicates()),
    {
        match self {
            Cache::Memory(c) => c.set_diff(keys),
            Cache::Redis(c) => c.set_diff(keys),
        }
    }

    fn set_diffstore(&self, diff_name: &str, keys: &[&str]) -> (r: Result<u64, CacheError>)
        ensures
            *self is Memory ==> r is Ok,
    {
        match self {
            Cache::Memory(c) => c.set_diffstore(diff_name, keys),
            Cache::Redis(c) => c.set_diffstore(diff_name, keys),
        }
    }

    fn set_inter(&self, keys: &[&str]) -> (r: Result<Vec<String>, CacheError>)
        ensures
            *self is Memory ==> r is Ok && (r matches Ok(ms)
                ==> ms.deep_view().no_duplicates()),
    {
        match self {
            Cache::Memory(c) => c.set_inter(keys),
            Cache::Redis(c) => c.set_inter(keys),
        }
    }

    fn set_interstore(&self, inter_name: &str, keys: &[&str]) -> (r: Result<u64, CacheError>)
        ensures
            *self is Memory ==> r is Ok,
    {
        match self {
            Cache::Memory(c) => c.set_interstore(inter_name, keys),
            Cache::Redis(c) => c.set_interstore(inter_name, keys),
        }
    }

    fn set_ismember<V: ToCacheString>(&self, key: &str, member: V) -> (r: Result<bool, CacheError>)
        ensures
            *self is Memory ==> r is Ok,
    {
        match self {
            Cache::Memory(c) => c.set_ismember(key, member),
            Cache::Redis(c) => c.set_ismember(key, member),
        }
    }

    fn set_members(&self, key: &str) -> (r: Result<Vec<String>, CacheError>)
        ensures
            *self is Memory ==> r is Ok && (r matches Ok(ms)
                ==> ms.deep_view().no_duplicates()),
    {
        match self {
            Cache::Memory(c) => c.set_members(key),
            Cache::Redis(c) => c.set_members(key),
        }
    }

    fn set_move<V: ToCacheString>(&self, key1: &str, key2: &str, member: V) -> (r: Result<
        bool,
        CacheError,
    >)
        ensures
            *self is Memory ==> r is Ok,
    {
        match self {
            Cache::Memory(c) => c.set_move(key1, key2, member),
            Cache::Redis(c) => c.set_move(key1, key2, member),
        }
    }

    fn set_rem<V: ToCacheString>(&self, key: &str, member: V) -> (r: Result<bool, CacheError>)
        ensures
            *self is Memory ==> r is Ok,
    {
        match self {
            Cache::Memory(c) => c.set_rem(key, member),
            Cache::Redis(c) => c.set_rem(key, member),
        }
    }

    fn set_union(&self, keys: &[&str]) -> (r: Result<Vec<String>, CacheError>)
        ensures
            *self is Memory ==> r is Ok && (r matches Ok(ms)
                ==> ms.deep_view().no_duplicates()),
    {
        match self {
            Cache::Memory(c) => c.set_union(keys),
            Cache::Redis(c) => c.set_union(keys),
        }
    }

    fn set_unionstore(&self, union_name: &str, keys: &[&str]) -> (r: Result<u64, CacheError>)
        ensures
            *self is Memory ==> r is Ok,
    {
        match self {
            Cache::Memory(c) => c.set_unionstore(union_name, keys),
            Cache::Redis(c) => c.set_unionstore(union_name, keys),
        }
    }
}

/// A cache handle over a fresh in-process engine.
pub fn memory() -> (r: Cache<NoRemote>)
    ensures
        r is Memory,
{
    Cache::Memory(MemoryCache::new())
}
} // verus!
