//! The remote engine: a pooled-connection command translator. Every public
//! operation builds one wire command (two for an insert with expiration),
//! sends it through a `RemoteLink`, and interprets the reply; building and
//! interpreting are verified, the link itself is the embedding
//! application's transport. Key construction is shared with the in-process
//! engine, so both address the same logical entity space.

use vstd::prelude::*;
use vstd::string::StrSliceExecFns;
use vstd::string::StringExecFns;

use crate::commands::auth_command;
use crate::commands::del_command;
use crate::commands::exists_command;
use crate::commands::expire_command;
use crate::commands::hdel_command;
use crate::commands::hexists_command;
use crate::commands::hget_command;
use crate::commands::hgetall_command;
use crate::commands::hkeys_command;
use crate::commands::hlen_command;
use crate::commands::hmget_command;
use crate::commands::hmset_command;
use crate::commands::hset_command;
use crate::commands::hsetnx_command;
use crate::commands::hvals_command;
use crate::commands::interpret_bool;
use crate::commands::interpret_count;
use crate::commands::interpret_ok;
use crate::commands::interpret_opt_string;
use crate::commands::interpret_opt_string_list;
use crate::commands::interpret_record;
use crate::commands::interpret_string_list;
use crate::commands::sadd_command;
use crate::commands::scard_command;
use crate::commands::sdiff_command;
use crate::commands::sdiffstore_command;
use crate::commands::select_command;
use crate::commands::sinter_command;
use crate::commands::sinterstore_command;
use crate::commands::sismember_command;
use crate::commands::smembers_command;
use crate::commands::smove_command;
use crate::commands::spec_reply_bool;
use crate::commands::spec_reply_count;
use crate::commands::spec_reply_list;
use crate::commands::spec_reply_opt_list;
use crate::commands::spec_reply_record;
use crate::commands::srem_command;
use crate::commands::sunion_command;
use crate::commands::sunionstore_command;
use crate::commands::RemoteCommand;
use crate::commands::RemoteReply;
use crate::error::CacheError;
use crate::record::FieldMap;
use crate::strings::dec_digits;
use crate::strings::u64_to_string;
use crate::strings::FromCacheString;
use crate::strings::ToCacheString;
use crate::Cacheable;
use crate::gen_key;
use crate::spec_composite_key;

verus! {

/// What a connection attempt can fail with: a protocol-level error
/// reported by the remote store, or anything else, described.
#[derive(Debug, Clone, PartialEq, Eq)]
pub enum Error {
    /// A protocol-level error message from the remote store.
    RedisCacheError(String),
    /// Any other connection-level failure.
    Other(String),
}

impl Error {
    /// A human-readable description of the failure.
    pub fn describe(&self) -> (r: String)
        ensures
            r@ == self.spec_describe(),
    {
        match self {
            Error::RedisCacheError(d) => d.clone(),
            Error::Other(d) => d.clone(),
        }
    }

    /// The description carried by either variant.
    pub open spec fn spec_describe(&self) -> Seq<char> {
        match self {
            Error::RedisCacheError(d) => d@,
            Error::Other(d) => d@,
        }
    }
}

/// The transport that carries one command to the remote store and brings
/// its reply back. Failing with `Error` means no connection could be had;
/// a protocol error comes back as a reply. The embedding application
/// implements this over its socket library and connection pool; the
/// library states of every operation what holds whatever the link answers.
pub trait RemoteLink: Sized {
    /// Performs one round trip.
    fn round_trip(&self, cmd: &RemoteCommand) -> Result<RemoteReply, Error>;
}

/// The link of a cache that has no remote backend: every round trip fails
/// as a connection error.
#[derive(Clone)]
pub struct NoRemote;

impl RemoteLink for NoRemote {
    fn round_trip(&self, cmd: &RemoteCommand) -> Result<RemoteReply, Error> {
        Err(Error::Other(String::from_str("no remote link configured")))
    }
}

/// How to reach and initialize the remote store: the endpoint, an optional
/// password for an authentication command, and an optional logical
/// database index selected after connecting. The pool hands every fresh
/// connection through this initialization before a caller sees it.
#[derive(Clone)]
pub struct RedisConnectionManager {
    /// The endpoint, as `"<host>"` or `"<host>:<port>"`.
    pub host: String,
    /// The password to authenticate with, if any.
    pub password: Option<String>,
    /// The logical database to select, if any.
    pub db: Option<u16>,
}

impl RedisConnectionManager {
    /// A manager for the given endpoint; an empty host is refused.
    pub fn new(host: &str, password: Option<&str>, db: Option<u16>) -> (r: Result<
        RedisConnectionManager,
        Error,
    >)
        ensures
            match r {
                Ok(m) => {
                    &&& host@.len() > 0
                    &&& m.host@ == host@
                    &&& match (m.password, password) {
                        (Some(p), Some(q)) => p@ == q@,
                        (None, None) => true,
                        _ => false,
                    }
                    &&& m.db == db
                },
                Err(_) => host@.len() == 0,
            },
    {
        if host.unicode_len() == 0 {
            return Err(Error::Other(String::from_str("empty host")));
        }
        let password = match password {
            Some(p) => Some(p.to_owned()),
            None => None,
        };
        Ok(RedisConnectionManager { host: host.to_owned(), password, db })
    }

    /// The commands that initialize a fresh physical connection, in order:
    /// authentication when a password is set, then database selection when
    /// an index is set.
    pub fn connection_setup_commands(&self) -> (r: Vec<RemoteCommand>)
        ensures
            r@.len() == spec_setup_len(self.password, self.db),
            self.password matches Some(p) ==> r@[0].name@ == "AUTH"@
                && r@[0].args.deep_view() == seq![p@],
            self.db matches Some(d) ==> {
                let i = if self.password is Some { 1int } else { 0int };
                r@[i].name@ == "SELECT"@ && r@[i].args.deep_view() == seq![dec_digits(d as int)]
            },
    {
        let mut r: Vec<RemoteCommand> = Vec::new();
        match &self.password {
            Some(p) => {
                r.push(auth_command(p.as_str()));
            },
            None => {},
        }
        match self.db {
            Some(d) => {
                r.push(select_command(d));
            },
            None => {},
        }
        r
    }
}

/// How many setup commands a manager issues.
pub open spec fn spec_setup_len(password: Option<String>, db: Option<u16>) -> int {
    (if password is Some { 1int } else { 0int }) + (if db is Some { 1int } else { 0int })
}

/// One address a host name resolved to.
pub enum HostAddr {
    /// A version-four address, by its octets.
    V4(u8, u8, u8, u8),
    /// A version-six address; the remote engine does not dial these.
    V6,
}

/// A version-four address in dotted decimal.
pub open spec fn spec_dotted(a: u8, b: u8, c: u8, d: u8) -> Seq<char> {
    dec_digits(a as int) + seq!['.'] + dec_digits(b as int) + seq!['.'] + dec_digits(c as int)
        + seq!['.'] + dec_digits(d as int)
}

/// Renders a version-four address in dotted decimal.
pub fn dotted_quad(a: u8, b: u8, c: u8, d: u8) -> (r: String)
    ensures
        r@ == spec_dotted(a, b, c, d),
{
    proof {
        reveal_strlit(".");
    }
    let mut s = u64_to_string(a as u64);
    s.append(".");
    let sb = u64_to_string(b as u64);
    s.append(sb.as_str());
    s.append(".");
    let sc = u64_to_string(c as u64);
    s.append(sc.as_str());
    s.append(".");
    let sd = u64_to_string(d as u64);
    s.append(sd.as_str());
    proof {
        assert(s@ =~= spec_dotted(a, b, c, d));
    }
    s
}

/// Splits an endpoint at its first colon: the name, and what follows the
/// colon, if anything.
pub fn split_host_port(host: &str) -> (r: (String, Option<String>))
    ensures
        match r.1 {
            Some(port) => exists|i: int|
                {
                    &&& 0 <= i < host@.len()
                    &&& #[trigger] host@[i] == ':'
                    &&& r.0@ == host@.subrange(0, i)
                    &&& port@ == host@.subrange(i + 1, host@.len() as int)
                    &&& forall|j: int| 0 <= j < i ==> host@[j] != ':'
                },
            None => r.0@ == host@ && forall|j: int| 0 <= j < host@.len() ==> host@[j] != ':',
        },
{
    let n = host.unicode_len();
    let mut i: usize = 0;
    while i < n
        invariant
            n == host@.len(),
            0 <= i <= n,
            forall|j: int| 0 <= j < i ==> host@[j] != ':',
        decreases n - i,
    {
        if host.get_char(i) == ':' {
            let name = host.substring_char(0, i);
            let port = host.substring_char(i + 1, n);
            return (name.to_owned(), Some(port.to_owned()));
        }
        i += 1;
    }
    (host.to_owned(), None)
}

/// The connection URL for a resolved address: `"redis://<ip>"`, with the
/// original port kept when the endpoint named one.
pub fn redis_url(a: u8, b: u8, c: u8, d: u8, port: Option<&String>) -> (r: String)
    ensures
        match port {
            Some(p) => r@ == "redis://"@ + spec_dotted(a, b, c, d) + seq![':'] + p@,
            None => r@ == "redis://"@ + spec_dotted(a, b, c, d),
        },
{
    proof {
        reveal_strlit("redis://");
        reveal_strlit(":");
    }
    let mut s = String::from_str("redis://");
    let ip = dotted_quad(a, b, c, d);
    s.append(ip.as_str());
    match port {
        Some(p) => {
            s.append(":");
            s.append(p.as_str());
            proof {
                assert(s@ =~= "redis://"@ + spec_dotted(a, b, c, d) + seq![':'] + p@);
            }
        },
        None => {
            proof {
                assert(s@ =~= "redis://"@ + spec_dotted(a, b, c, d));
            }
        },
    }
    s
}

/// The first version-four address of a resolution result.
pub fn select_ipv4(addrs: &Vec<HostAddr>) -> (r: Option<(u8, u8, u8, u8)>)
    ensures
        match r {
            Some(q) => exists|i: int|
                {
                    &&& 0 <= i < addrs@.len()
                    &&& #[trigger] addrs@[i] == HostAddr::V4(q.0, q.1, q.2, q.3)
                },
            None => forall|i: int| 0 <= i < addrs@.len() ==> !((#[trigger] addrs@[i]) is V4),
        },
{
    let n = addrs.len();
    let mut i: usize = 0;
    while i < n
        invariant
            n == addrs@.len(),
            0 <= i <= n,
            forall|j: int| 0 <= j < i ==> !((#[trigger] addrs@[j]) is V4),
        decreases n - i,
    {
        match addrs[i] {
            HostAddr::V4(a, b, c, d) => {
                return Some((a, b, c, d));
            },
            HostAddr::V6 => {},
        }
        i += 1;
    }
    None
}

/// Sends one command over the link, folding a failed checkout into the
/// error taxonomy as a connection error.
fn call_link<R: RemoteLink>(link: &R, cmd: &RemoteCommand) -> (r: Result<RemoteReply, CacheError>)
    ensures
        r matches Err(e) ==> e is ConnectionError,
{
    match link.round_trip(cmd) {
        Ok(rep) => Ok(rep),
        Err(e) => Err(CacheError::ConnectionError(e.describe())),
    }
}

/// Builds the composite key `"<ModelName>:<InstanceKey>"` for type `O`, as
/// the remote engine addresses it; identical to the in-process engine's
/// key construction.
pub fn redis_key_create<K: ToCacheString, O: Cacheable>(key: K) -> (r: String)
    ensures
        r@ == spec_composite_key(O::spec_model_name(), key.spec_string()),
{
    gen_key::<K, O>(key)
}

/// Writes a flat record as the hash record at `key` in one round trip.
pub fn redis_hash_set_multiple<R: RemoteLink>(link: &R, key: String, v: &FieldMap) -> (r: Result<
    (),
    CacheError,
>)
    ensures
        r matches Err(e) ==> (e is ConnectionError || e is RedisCacheError),
{
    let cmd = hmset_command(key.as_str(), v.pairs());
    match call_link(link, &cmd) {
        Ok(rep) => interpret_ok(&rep),
        Err(e) => Err(e),
    }
}

/// Writes a flat record as the hash record at `key`, then sets the key's
/// time to live in a second round trip. The pair is not atomic: a failure
/// between the two leaves a persisted record with no expiration.
pub fn redis_hash_set_multiple_with_expire<R: RemoteLink>(
    link: &R,
    key: String,
    v: &FieldMap,
    ttl_sec: usize,
) -> (r: Result<(), CacheError>)
    ensures
        r matches Err(e) ==> (e is ConnectionError || e is RedisCacheError),
{
    let cmd = hmset_command(key.as_str(), v.pairs());
    match call_link(link, &cmd) {
        Ok(rep) => match interpret_ok(&rep) {
            Ok(_) => {},
            Err(e) => {
                return Err(e);
            },
        },
        Err(e) => {
            return Err(e);
        },
    }
    let exp = expire_command(key.as_str(), ttl_sec);
    match call_link(link, &exp) {
        Ok(rep) => interpret_ok(&rep),
        Err(e) => Err(e),
    }
}

/// Reads the whole hash record at `key` in one round trip.
pub fn redis_hash_get_all<R: RemoteLink>(link: &R, key: String) -> (r: Result<
    FieldMap,
    CacheError,
>)
    ensures
        match r {
            Ok(fm) => fm.wf() && exists|rep: RemoteReply| spec_reply_record(rep) == Some(fm@),
            Err(e) => e is ConnectionError || e is RedisCacheError || e is AccessError,
        },
{
    let cmd = hgetall_command(key.as_str());
    match call_link(link, &cmd) {
        Ok(rep) => match interpret_record(&rep) {
            Ok(fm) => {
                proof {
                    assert(spec_reply_record(rep) == Some(fm@));
                }
                Ok(fm)
            },
            Err(e) => Err(e),
        },
        Err(e) => Err(e),
    }
}

/// Deletes the key outright in one round trip.
pub fn redis_delete<R: RemoteLink>(link: &R, key: String) -> (r: Result<(), CacheError>)
    ensures
        r matches Err(e) ==> (e is ConnectionError || e is RedisCacheError),
{
    let cmd = del_command(key.as_str());
    match call_link(link, &cmd) {
        Ok(rep) => interpret_ok(&rep),
        Err(e) => Err(e),
    }
}

/// Asks whether the key exists, in one round trip.
pub fn redis_key_exists<R: RemoteLink>(link: &R, key: String) -> (r: Result<bool, CacheError>)
    ensures
        match r {
            Ok(b) => exists|rep: RemoteReply| spec_reply_bool(rep) == Some(b),
            Err(e) => e is ConnectionError || e is RedisCacheError || e is AccessError,
        },
{
    let cmd = exists_command(key.as_str());
    match call_link(link, &cmd) {
        Ok(rep) => interpret_bool(&rep),
        Err(e) => Err(e),
    }
}

/// The forgiving-read policy: what a typed read returns for each outcome
/// of the whole-hash fetch at its composite key. A record that
/// reconstructs is the value. An absent key (the fetch yields an empty
/// record), a non-empty record that does not read back as an `O` (a legacy
/// or partially written shape), and any fetch failure past checkout all
/// read as `None`, never as an error; the stored record is left as it is.
/// Only a failed connection checkout is passed through as the error.
pub open spec fn spec_forgiving_read<O: Cacheable>(
    fetched: Result<Map<Seq<char>, Seq<char>>, CacheError>,
    r: Result<Option<O>, CacheError>,
) -> bool {
    match fetched {
        Ok(rec) => match O::spec_parse_record(rec) {
            Some(dv) => r matches Ok(Some(x)) && x.deep_view() == dv,
            None => r == Ok::<Option<O>, CacheError>(None),
        },
        Err(e) => if e is ConnectionError {
            r == Err::<Option<O>, CacheError>(e)
        } else {
            r == Ok::<Option<O>, CacheError>(None)
        },
    }
}

/// Turns the outcome of the whole-hash fetch into the typed result, under
/// the forgiving-read policy.
pub fn interpret_fetch<O: Cacheable>(fetched: Result<FieldMap, CacheError>) -> (r: Result<
    Option<O>,
    CacheError,
>)
    requires
        fetched matches Ok(fm) ==> fm.wf(),
    ensures
        spec_forgiving_read::<O>(
            match fetched {
                Ok(fm) => Ok(fm@),
                Err(e) => Err(e),
            },
            r,
        ),
{
    match fetched {
        Ok(fm) => match O::from_redis_obj(&fm) {
            Ok(v) => Ok(Some(v)),
            Err(_) => Ok(None),
        },
        Err(e) => match e {
            CacheError::ConnectionError(d) => Err(CacheError::ConnectionError(d)),
            _ => Ok(None),
        },
    }
}

/// The remote engine handle, over whatever link the application supplies.
#[derive(Clone)]
pub struct RedisCache<R: RemoteLink> {
    link: R,
}

impl<R: RemoteLink> RedisCache<R> {
    /// A remote engine over the given link.
    pub fn with_link(link: R) -> RedisCache<R> {
        RedisCache { link }
    }

    /// Stores `obj` as the hash record at its composite key; the
    /// expiration comes from the object's own accessor.
    pub fn insert<K: ToCacheString, O: Cacheable>(&self, key: K, obj: O) -> (r: Result<
        (),
        CacheError,
    >)
        ensures
            r matches Err(e) ==> (e is ConnectionError || e is RedisCacheError),
    {
        let exp = obj.expires_after();
        self.insert_with(key, obj, exp)
    }

    /// Stores `obj` as the hash record at its composite key in one round
    /// trip, then, when a time to live applies, sets it in a second round
    /// trip. The time to live comes from the explicit argument when
    /// present, and from the object's own accessor otherwise. The pair is
    /// not atomic: a failure between the two leaves a persisted record
    /// with no expiration.
    pub fn insert_with<K: ToCacheString, O: Cacheable>(
        &self,
        key: K,
        obj: O,
        expires_after: Option<usize>,
    ) -> (r: Result<(), CacheError>)
        ensures
            r matches Err(e) ==> (e is ConnectionError || e is RedisCacheError),
    {
        let redis_key = redis_key_create::<K, O>(key);
        let ttl = crate::effective_ttl(expires_after, obj.expires_after());
        let data = obj.to_redis_obj();
        match ttl {
            Some(t) => redis_hash_set_multiple_with_expire(&self.link, redis_key, &data, t),
            None => redis_hash_set_multiple(&self.link, redis_key, &data),
        }
    }

    /// Loads the object stored at the composite key of `key` and `O`,
    /// under the forgiving-read policy of `interpret_fetch`: an absent
    /// key, a record that does not read back as an `O`, and even a failed
    /// query all read as `None`; only a failed connection checkout is an
    /// error. Callers cannot distinguish absence from a malformed record
    /// through this call.
    pub fn get<K: ToCacheString, O: Cacheable>(&self, key: K) -> (r: Result<Option<O>, CacheError>)
        ensures
            exists|fetched: Result<Map<Seq<char>, Seq<char>>, CacheError>|
                #[trigger] spec_forgiving_read::<O>(fetched, r),
            match r {
                Ok(Some(v)) => exists|rep: RemoteReply|
                    {
                        &&& #[trigger] spec_reply_record(rep) matches Some(rec)
                        &&& O::spec_parse_record(rec) == Some(v.deep_view())
                    },
                Ok(None) => true,
                Err(e) => e is ConnectionError,
            },
    {
        let redis_key = redis_key_create::<K, O>(key);
        let fetched = redis_hash_get_all(&self.link, redis_key);
        let ghost fetched_model: Result<Map<Seq<char>, Seq<char>>, CacheError> = match fetched {
            Ok(ref fm) => Ok(fm@),
            Err(ref e) => Err(*e),
        };
        let r = interpret_fetch::<O>(fetched);
        proof {
            assert(spec_forgiving_read::<O>(fetched_model, r));
            match r {
                Ok(Some(ref v)) => {
                    let fm_view = fetched_model->Ok_0;
                    let rep = choose|rep: RemoteReply| spec_reply_record(rep) == Some(fm_view);
                    assert(spec_reply_record(rep) matches Some(rec)
                        && O::spec_parse_record(rec) == Some(v.deep_view()));
                },
                _ => {},
            }
        }
        r
    }

    /// Whether the composite key of `key` and `O` exists remotely, in one
    /// round trip.
    pub fn contains_key<K: ToCacheString, O: Cacheable>(&self, key: K) -> (r: Result<
        bool,
        CacheError,
    >)
        ensures
            match r {
                Ok(b) => exists|rep: RemoteReply| spec_reply_bool(rep) == Some(b),
                Err(e) => e is ConnectionError || e is RedisCacheError || e is AccessError,
            },
    {
        let redis_key = redis_key_create::<K, O>(key);
        redis_key_exists(&self.link, redis_key)
    }

    /// Deletes the composite key of `key` and `O`, in one round trip;
    /// deleting an absent key succeeds.
    pub fn remove<K: ToCacheString, O: Cacheable>(&self, key: K) -> (r: Result<(), CacheError>)
        ensures
            r matches Err(e) ==> (e is ConnectionError || e is RedisCacheError),
    {
        let redis_key = redis_key_create::<K, O>(key);
        redis_delete(&self.link, redis_key)
    }

    /// Deletes fields of the hash record at `key`, in one round trip.
    pub fn hash_delete(&self, key: &str, fields: &[&str]) -> (r: Result<bool, CacheError>)
        ensures
            match r {
                Ok(b) => exists|rep: RemoteReply| spec_reply_bool(rep) == Some(b),
                Err(e) => e is ConnectionError || e is RedisCacheError || e is AccessError,
            },
    {
        let cmd = hdel_command(key, fields);
        match call_link(&self.link, &cmd) {
            Ok(rep) => interpret_bool(&rep),
            Err(e) => Err(e),
        }
    }

    /// Asks whether a field of the hash record at `key` exists, in one
    /// round trip.
    pub fn hash_exists(&self, key: &str, field: &str) -> (r: Result<bool, CacheError>)
        ensures
            match r {
                Ok(b) => exists|rep: RemoteReply| spec_reply_bool(rep) == Some(b),
                Err(e) => e is ConnectionError || e is RedisCacheError || e is AccessError,
            },
    {
        let cmd = hexists_command(key, field);
        match call_link(&self.link, &cmd) {
            Ok(rep) => interpret_bool(&rep),
            Err(e) => Err(e),
        }
    }

    /// Reads one field of the hash record at `key` and parses it as a
    /// `T`, in one round trip: an absent key or field reads as `None`; a
    /// stored value that does not parse is an error.
    pub fn hash_get<T: FromCacheString>(&self, key: &str, field: &str) -> (r: Result<
        Option<T>,
        CacheError,
    >)
        ensures
            match r {
                Ok(Some(v)) => exists|s: Seq<char>| T::spec_parses(s, v),
                Ok(None) => true,
                Err(e) => e is ConnectionError || e is RedisCacheError || e is AccessError
                    || e is Other,
            },
    {
        let cmd = hget_command(key, field);
        let stored = match call_link(&self.link, &cmd) {
            Ok(rep) => match interpret_opt_string(&rep) {
                Ok(s) => s,
                Err(e) => {
                    return Err(e);
                },
            },
            Err(e) => {
                return Err(e);
            },
        };
        match stored {
            None => Ok(None),
            Some(s) => match T::from_cache_string(s.as_str()) {
                Some(v) => {
                    proof {
                        assert(T::spec_parses(s@, v));
                    }
                    Ok(Some(v))
                },
                None => Err(CacheError::Other(
                    String::from_str("An error occured while parsing a redis value"),
                )),
            },
        }
    }

    /// Loads the whole hash record at `key` as an `O`, in one round trip.
    /// Unlike the typed `get`, a record that does not read back as an `O`
    /// is an access error here.
    pub fn hash_get_all<O: Cacheable>(&self, key: &str) -> (r: Result<Option<O>, CacheError>)
        ensures
            match r {
                Ok(Some(v)) => exists|rep: RemoteReply|
                    {
                        &&& #[trigger] spec_reply_record(rep) matches Some(rec)
                        &&& O::spec_parse_record(rec) == Some(v.deep_view())
                    },
                Ok(None) => false,
                Err(e) => e is ConnectionError || e is RedisCacheError || e is AccessError,
            },
    {
        match redis_hash_get_all(&self.link, key.to_owned()) {
            Ok(fm) => match O::from_redis_obj(&fm) {
                Ok(v) => {
                    proof {
                        let rep = choose|rep: RemoteReply| spec_reply_record(rep) == Some(fm@);
                        assert(spec_reply_record(rep) matches Some(rec)
                            && O::spec_parse_record(rec) == Some(v.deep_view()));
                    }
                    Ok(Some(v))
                },
                Err(e) => Err(e),
            },
            Err(e) => Err(e),
        }
    }

    /// Lists the field names of the hash record at `key`, in one round
    /// trip.
    pub fn hash_keys(&self, key: &str) -> (r: Result<Vec<String>, CacheError>)
        ensures
            match r {
                Ok(vs) => exists|rep: RemoteReply| spec_reply_list(rep) == Some(vs.deep_view()),
                Err(e) => e is ConnectionError || e is RedisCacheError || e is AccessError,
            },
    {
        let cmd = hkeys_command(key);
        match call_link(&self.link, &cmd) {
            Ok(rep) => interpret_string_list(&rep),
            Err(e) => Err(e),
        }
    }

    /// Asks for the number of fields of the hash record at `key`, in one
    /// round trip.
    pub fn hash_len(&self, key: &str) -> (r: Result<usize, CacheError>)
        ensures
            match r {
                Ok(n) => exists|rep: RemoteReply| spec_reply_count(rep) == Some(n as u64),
                Err(e) => e is ConnectionError || e is RedisCacheError || e is AccessError,
            },
    {
        let cmd = hlen_command(key);
        let n = match call_link(&self.link, &cmd) {
            Ok(rep) => match interpret_count(&rep) {
                Ok(n) => {
                    proof {
                        assert(spec_reply_count(rep) == Some(n));
                    }
                    n
                },
                Err(e) => {
                    return Err(e);
                },
            },
            Err(e) => {
                return Err(e);
            },
        };
        if n > usize::MAX as u64 {
            return Err(CacheError::AccessError(String::from_str("count out of range")));
        }
        Ok(n as usize)
    }

    /// Reads several fields of the hash record at `key`, in one round
    /// trip: one optional value per asked field.
    pub fn hash_multiple_get(&self, key: &str, fields: &[&str]) -> (r: Result<
        Vec<Option<String>>,
        CacheError,
    >)
        ensures
            match r {
                Ok(vs) => exists|rep: RemoteReply| spec_reply_opt_list(rep) == Some(vs.deep_view()),
                Err(e) => e is ConnectionError || e is RedisCacheError || e is AccessError,
            },
    {
        let cmd = hmget_command(key, fields);
        match call_link(&self.link, &cmd) {
            Ok(rep) => interpret_opt_string_list(&rep),
            Err(e) => Err(e),
        }
    }

    /// Writes several fields of the hash record at `key` in one round
    /// trip.
    pub fn hash_multiple_set<V: ToCacheString>(&self, key: &str, fv_pairs: &[(&str, V)]) -> (r:
        Result<bool, CacheError>)
        ensures
            match r {
                Ok(b) => b,
                Err(e) => e is ConnectionError || e is RedisCacheError,
            },
    {
        let mut pairs: Vec<(String, String)> = Vec::new();
        let n = fv_pairs.len();
        let mut i: usize = 0;
        while i < n
            invariant
                0 <= i <= n,
                n == fv_pairs@.len(),
            decreases n - i,
        {
            pairs.push((fv_pairs[i].0.to_owned(), fv_pairs[i].1.to_cache_string()));
            i += 1;
        }
        let cmd = hmset_command(key, &pairs);
        match call_link(&self.link, &cmd) {
            Ok(rep) => match interpret_ok(&rep) {
                Ok(_) => Ok(true),
                Err(e) => Err(e),
            },
            Err(e) => Err(e),
        }
    }

    /// Sets one field of the hash record at `key`, in one round trip.
    pub fn hash_set<V: ToCacheString>(&self, key: &str, field: &str, value: V) -> (r: Result<
        bool,
        CacheError,
    >)
        ensures
            match r {
                Ok(b) => exists|rep: RemoteReply| spec_reply_bool(rep) == Some(b),
                Err(e) => e is ConnectionError || e is RedisCacheError || e is AccessError,
            },
    {
        let vs = value.to_cache_string();
        let cmd = hset_command(key, field, vs.as_str());
        match call_link(&self.link, &cmd) {
            Ok(rep) => interpret_bool(&rep),
            Err(e) => Err(e),
        }
    }

    /// Writes a whole object as the hash record at `key` in one round
    /// trip, without touching expiration.
    pub fn hash_set_all<O: Cacheable>(&self, key: &str, cacheable: O) -> (r: Result<
        bool,
        CacheError,
    >)
        ensures
            match r {
                Ok(b) => b,
                Err(e) => e is ConnectionError || e is RedisCacheError,
            },
    {
        let data = cacheable.to_redis_obj();
        match redis_hash_set_multiple(&self.link, key.to_owned(), &data) {
            Ok(_) => Ok(true),
            Err(e) => Err(e),
        }
    }

    /// Sets a field of the hash record at `key` only when absent, in one
    /// round trip; reports whether the field was written.
    pub fn hash_set_if_not_exists<V: ToCacheString>(
        &self,
        key: &str,
        field: &str,
        value: V,
    ) -> (r: Result<bool, CacheError>)
        ensures
            match r {
                Ok(b) => exists|rep: RemoteReply| spec_reply_bool(rep) == Some(b),
                Err(e) => e is ConnectionError || e is RedisCacheError || e is AccessError,
            },
    {
        let vs = value.to_cache_string();
        let cmd = hsetnx_command(key, field, vs.as_str());
        match call_link(&self.link, &cmd) {
            Ok(rep) => interpret_bool(&rep),
            Err(e) => Err(e),
        }
    }

    /// Lists the values of the hash record at `key`, in one round trip.
    pub fn hash_values(&self, key: &str) -> (r: Result<Vec<String>, CacheError>)
        ensures
            match r {
                Ok(vs) => exists|rep: RemoteReply| spec_reply_list(rep) == Some(vs.deep_view()),
                Err(e) => e is ConnectionError || e is RedisCacheError || e is AccessError,
            },
    {
        let cmd = hvals_command(key);
        match call_link(&self.link, &cmd) {
            Ok(rep) => interpret_string_list(&rep),
            Err(e) => Err(e),
        }
    }

    /// Adds members to the set record at `key`, in one round trip.
    pub fn set_add<V: ToCacheString>(&self, key: &str, members: &[V]) -> (r: Result<
        bool,
        CacheError,
    >)
        ensures
            match r {
                Ok(b) => exists|rep: RemoteReply| spec_reply_bool(rep) == Some(b),
                Err(e) => e is ConnectionError || e is RedisCacheError || e is AccessError,
            },
    {
        let mut ms: Vec<String> = Vec::new();
        let n = members.len();
        let mut i: usize = 0;
        while i < n
            invariant
                0 <= i <= n,
                n == members@.len(),
            decreases n - i,
        {
            ms.push(members[i].to_cache_string());
            i += 1;
        }
        let cmd = sadd_command(key, &ms);
        match call_link(&self.link, &cmd) {
            Ok(rep) => interpret_bool(&rep),
            Err(e) => Err(e),
        }
    }

    /// Asks for the cardinality of the set record at `key`, in one round
    /// trip.
    pub fn set_card(&self, key: &str) -> (r: Result<u64, CacheError>)
        ensures
            match r {
                Ok(n) => exists|rep: RemoteReply| spec_reply_count(rep) == Some(n),
                Err(e) => e is ConnectionError || e is RedisCacheError || e is AccessError,
            },
    {
        let cmd = scard_command(key);
        match call_link(&self.link, &cmd) {
            Ok(rep) => interpret_count(&rep),
            Err(e) => Err(e),
        }
    }

    /// Asks for the difference of the named sets, in one round trip; the
    /// remote store answers with a de-duplicated member list.
    pub fn set_diff(&self, keys: &[&str]) -> (r: Result<Vec<String>, CacheError>)
        ensures
            match r {
                Ok(vs) => exists|rep: RemoteReply| spec_reply_list(rep) == Some(vs.deep_view()),
                Err(e) => e is ConnectionError || e is RedisCacheError || e is AccessError,
            },
    {
        let cmd = sdiff_command(keys);
        match call_link(&self.link, &cmd) {
            Ok(rep) => interpret_string_list(&rep),
            Err(e) => Err(e),
        }
    }

    /// Stores the difference of the named sets under `diff_name`, in one
    /// round trip, and reports the stored cardinality.
    pub fn set_diffstore(&self, diff_name: &str, keys: &[&str]) -> (r: Result<u64, CacheError>)
        ensures
            match r {
                Ok(n) => exists|rep: RemoteReply| spec_reply_count(rep) == Some(n),
                Err(e) => e is ConnectionError || e is RedisCacheError || e is AccessError,
            },
    {
        let cmd = sdiffstore_command(diff_name, keys);
        match call_link(&self.link, &cmd) {
            Ok(rep) => interpret_count(&rep),
            Err(e) => Err(e),
        }
    }

    /// Asks for the intersection of the named sets, in one round trip.
    pub fn set_inter(&self, keys: &[&str]) -> (r: Result<Vec<String>, CacheError>)
        ensures
            match r {
                Ok(vs) => exists|rep: RemoteReply| spec_reply_list(rep) == Some(vs.deep_view()),
                Err(e) => e is ConnectionError || e is RedisCacheError || e is AccessError,
            },
    {
        let cmd = sinter_command(keys);
        match call_link(&self.link, &cmd) {
            Ok(rep) => interpret_string_list(&rep),
            Err(e) => Err(e),
        }
    }

    /// Stores the intersection of the named sets under `inter_name`, in
    /// one round trip, and reports the stored cardinality.
    pub fn set_interstore(&self, inter_name: &str, keys: &[&str]) -> (r: Result<u64, CacheError>)
        ensures
            match r {
                Ok(n) => exists|rep: RemoteReply| spec_reply_count(rep) == Some(n),
                Err(e) => e is ConnectionError || e is RedisCacheError || e is AccessError,
            },
    {
        let cmd = sinterstore_command(inter_name, keys);
        match call_link(&self.link, &cmd) {
            Ok(rep) => interpret_count(&rep),
            Err(e) => Err(e),
        }
    }

    /// Asks whether a member is in the set record at `key`, in one round
    /// trip.
    pub fn set_ismember<V: ToCacheString>(&self, key: &str, member: V) -> (r: Result<
        bool,
        CacheError,
    >)
        ensures
            match r {
                Ok(b) => exists|rep: RemoteReply| spec_reply_bool(rep) == Some(b),
                Err(e) => e is ConnectionError || e is RedisCacheError || e is AccessError,
            },
    {
        let m = member.to_cache_string();
        let cmd = sismember_command(key, m.as_str());
        match call_link(&self.link, &cmd) {
            Ok(rep) => interpret_bool(&rep),
            Err(e) => Err(e),
        }
    }

    /// Lists the members of the set record at `key`, in one round trip.
    pub fn set_members(&self, key: &str) -> (r: Result<Vec<String>, CacheError>)
        ensures
            match r {
                Ok(vs) => exists|rep: RemoteReply| spec_reply_list(rep) == Some(vs.deep_view()),
                Err(e) => e is ConnectionError || e is RedisCacheError || e is AccessError,
            },
    {
        let cmd = smembers_command(key);
        match call_link(&self.link, &cmd) {
            Ok(rep) => interpret_string_list(&rep),
            Err(e) => Err(e),
        }
    }

    /// Moves a member from one set record to another, in one round trip;
    /// reports whether it moved.
    pub fn set_move<V: ToCacheString>(&self, key1: &str, key2: &str, member: V) -> (r: Result<
        bool,
        CacheError,
    >)
        ensures
            match r {
                Ok(b) => exists|rep: RemoteReply| spec_reply_bool(rep) == Some(b),
                Err(e) => e is ConnectionError || e is RedisCacheError || e is AccessError,
            },
    {
        let m = member.to_cache_string();
        let cmd = smove_command(key1, key2, m.as_str());
        match call_link(&self.link, &cmd) {
            Ok(rep) => interpret_bool(&rep),
            Err(e) => Err(e),
        }
    }

    /// Removes a member from the set record at `key`, in one round trip;
    /// reports whether it was there.
    pub fn set_rem<V: ToCacheString>(&self, key: &str, member: V) -> (r: Result<bool, CacheError>)
        ensures
            match r {
                Ok(b) => exists|rep: RemoteReply| spec_reply_bool(rep) == Some(b),
                Err(e) => e is ConnectionError || e is RedisCacheError || e is AccessError,
            },
    {
        let m = member.to_cache_string();
        let cmd = srem_command(key, m.as_str());
        match call_link(&self.link, &cmd) {
            Ok(rep) => interpret_bool(&rep),
            Err(e) => Err(e),
        }
    }

    /// Asks for the union of the named sets, in one round trip.
    pub fn set_union(&self, keys: &[&str]) -> (r: Result<Vec<String>, CacheError>)
        ensures
            match r {
                Ok(vs) => exists|rep: RemoteReply| spec_reply_list(rep) == Some(vs.deep_view()),
                Err(e) => e is ConnectionError || e is RedisCacheError || e is AccessError,
            },
    {
        let cmd = sunion_command(keys);
        match call_link(&self.link, &cmd) {
            Ok(rep) => interpret_string_list(&rep),
            Err(e) => Err(e),
        }
    }

    /// Stores the union of the named sets under `union_name`, in one round
    /// trip, and reports the stored cardinality.
    pub fn set_unionstore(&self, union_name: &str, keys: &[&str]) -> (r: Result<u64, CacheError>)
        ensures
            match r {
                Ok(n) => exists|rep: RemoteReply| spec_reply_count(rep) == Some(n),
                Err(e) => e is ConnectionError || e is RedisCacheError || e is AccessError,
            },
    {
        let cmd = sunionstore_command(union_name, keys);
        match call_link(&self.link, &cmd) {
            Ok(rep) => interpret_count(&rep),
            Err(e) => Err(e),
        }
    }
}
} // verus!
