//! The remote engine's wire layer: each public operation is one command
//! (a name and its string arguments) mapped 1:1 onto the remote store's
//! native hash/set primitives, and each reply is interpreted back into the
//! caller's result type. Building and interpreting are verified; carrying
//! the command over the network is the transport's job.

use vstd::prelude::*;
use vstd::string::StringExecFns;

use crate::error::CacheError;
use crate::record::FieldMap;

verus! {

/// One remote round trip: a command name and its arguments, in wire order.
pub struct RemoteCommand {
    pub name: String,
    pub args: Vec<String>,
}

/// What the remote store can answer with.
pub enum RemoteReply {
    /// No value.
    Nil,
    /// An integer.
    Int(i64),
    /// A simple status line, such as `OK`.
    Status(String),
    /// One string value.
    Data(String),
    /// A list of optional string values.
    Bulk(Vec<Option<String>>),
    /// A protocol-level error with its message.
    Error(String),
}

/// The arguments `[a]`.
fn args1(a: &str) -> (r: Vec<String>)
    ensures
        r.deep_view() == seq![a@],
{
    let mut r: Vec<String> = Vec::new();
    r.push(a.to_owned());
    proof {
        assert(r.deep_view() =~= seq![a@]);
    }
    r
}

/// The arguments `[a, b]`.
fn args2(a: &str, b: &str) -> (r: Vec<String>)
    ensures
        r.deep_view() == seq![a@, b@],
{
    let mut r: Vec<String> = Vec::new();
    r.push(a.to_owned());
    r.push(b.to_owned());
    proof {
        assert(r.deep_view() =~= seq![a@, b@]);
    }
    r
}

/// The arguments `[a, b, c]`.
fn args3(a: &str, b: &str, c: &str) -> (r: Vec<String>)
    ensures
        r.deep_view() == seq![a@, b@, c@],
{
    let mut r: Vec<String> = Vec::new();
    r.push(a.to_owned());
    r.push(b.to_owned());
    r.push(c.to_owned());
    proof {
        assert(r.deep_view() =~= seq![a@, b@, c@]);
    }
    r
}

/// The arguments `[first]` followed by `rest`, in order.
fn args_list(first: &str, rest: &[&str]) -> (r: Vec<String>)
    ensures
        r.deep_view() == seq![first@] + rest.deep_view(),
{
    let mut r: Vec<String> = Vec::new();
    r.push(first.to_owned());
    let n = rest.len();
    let mut i: usize = 0;
    while i < n
        invariant
            n == rest@.len(),
            0 <= i <= n,
            r@.len() == i + 1,
            r@[0]@ == first@,
            forall|j: int| 1 <= j < i + 1 ==> (#[trigger] r@[j])@ == rest.deep_view()[j - 1],
        decreases n - i,
    {
        r.push(rest[i].to_owned());
        i += 1;
    }
    proof {
        assert(r.deep_view() =~= seq![first@] + rest.deep_view());
    }
    r
}

/// A list of (field, value) pairs flattened to wire order.
pub open spec fn spec_flat_pairs(pairs: Seq<(Seq<char>, Seq<char>)>) -> Seq<Seq<char>>
    decreases pairs.len(),
{
    if pairs.len() == 0 {
        Seq::empty()
    } else {
        spec_flat_pairs(pairs.drop_last()) + seq![pairs.last().0, pairs.last().1]
    }
}

/// The arguments `[key, f1, v1, f2, v2, ...]`.
fn args_pairs(key: &str, pairs: &Vec<(String, String)>) -> (r: Vec<String>)
    ensures
        r.deep_view() == seq![key@] + spec_flat_pairs(pairs.deep_view()),
{
    let mut r: Vec<String> = Vec::new();
    r.push(key.to_owned());
    let n = pairs.len();
    let mut i: usize = 0;
    while i < n
        invariant
            n == pairs@.len(),
            0 <= i <= n,
            r@.len() >= 1,
            r.deep_view() == seq![key@] + spec_flat_pairs(pairs.deep_view().subrange(0, i as int)),
        decreases n - i,
    {
        let ghost pre = pairs.deep_view().subrange(0, i as int);
        let ghost r_pre = r.deep_view();
        r.push(pairs[i].0.clone());
        r.push(pairs[i].1.clone());
        proof {
            assert(pairs.deep_view().subrange(0, i as int + 1).drop_last() =~= pre);
            assert(r.deep_view() =~= r_pre + seq![
                pairs.deep_view()[i as int].0,
                pairs.deep_view()[i as int].1,
            ]);
            assert(r.deep_view() =~= seq![key@] + spec_flat_pairs(
                pairs.deep_view().subrange(0, i as int + 1)));
        }
        i += 1;
    }
    proof {
        assert(pairs.deep_view().subrange(0, n as int) =~= pairs.deep_view());
    }
    r
}

/// Deletes fields of a hash record.
pub fn hdel_command(key: &str, fields: &[&str]) -> (r: RemoteCommand)
    ensures
        r.name@ == "HDEL"@,
        r.args.deep_view() == seq![key@] + fields.deep_view(),
{
    RemoteCommand { name: String::from_str("HDEL"), args: args_list(key, fields) }
}

/// Asks whether a field of a hash record exists.
pub fn hexists_command(key: &str, field: &str) -> (r: RemoteCommand)
    ensures
        r.name@ == "HEXISTS"@,
        r.args.deep_view() == seq![key@, field@],
{
    RemoteCommand { name: String::from_str("HEXISTS"), args: args2(key, field) }
}

/// Reads one field of a hash record.
pub fn hget_command(key: &str, field: &str) -> (r: RemoteCommand)
    ensures
        r.name@ == "HGET"@,
        r.args.deep_view() == seq![key@, field@],
{
    RemoteCommand { name: String::from_str("HGET"), args: args2(key, field) }
}

/// Reads a whole hash record.
pub fn hgetall_command(key: &str) -> (r: RemoteCommand)
    ensures
        r.name@ == "HGETALL"@,
        r.args.deep_view() == seq![key@],
{
    RemoteCommand { name: String::from_str("HGETALL"), args: args1(key) }
}

/// Lists the field names of a hash record.
pub fn hkeys_command(key: &str) -> (r: RemoteCommand)
    ensures
        r.name@ == "HKEYS"@,
        r.args.deep_view() == seq![key@],
{
    RemoteCommand { name: String::from_str("HKEYS"), args: args1(key) }
}

/// Asks for the number of fields of a hash record.
pub fn hlen_command(key: &str) -> (r: RemoteCommand)
    ensures
        r.name@ == "HLEN"@,
        r.args.deep_view() == seq![key@],
{
    RemoteCommand { name: String::from_str("HLEN"), args: args1(key) }
}

/// Reads several fields of a hash record.
pub fn hmget_command(key: &str, fields: &[&str]) -> (r: RemoteCommand)
    ensures
        r.name@ == "HMGET"@,
        r.args.deep_view() == seq![key@] + fields.deep_view(),
{
    RemoteCommand { name: String::from_str("HMGET"), args: args_list(key, fields) }
}

/// Writes several fields of a hash record in one round trip.
pub fn hmset_command(key: &str, pairs: &Vec<(String, String)>) -> (r: RemoteCommand)
    ensures
        r.name@ == "HMSET"@,
        r.args.deep_view() == seq![key@] + spec_flat_pairs(pairs.deep_view()),
{
    RemoteCommand { name: String::from_str("HMSET"), args: args_pairs(key, pairs) }
}

/// Sets one field of a hash record.
pub fn hset_command(key: &str, field: &str, value: &str) -> (r: RemoteCommand)
    ensures
        r.name@ == "HSET"@,
        r.args.deep_view() == seq![key@, field@, value@],
{
    RemoteCommand { name: String::from_str("HSET"), args: args3(key, field, value) }
}

/// Sets one field of a hash record only when absent.
pub fn hsetnx_command(key: &str, field: &str, value: &str) -> (r: RemoteCommand)
    ensures
        r.name@ == "HSETNX"@,
        r.args.deep_view() == seq![key@, field@, value@],
{
    RemoteCommand { name: String::from_str("HSETNX"), args: args3(key, field, value) }
}

/// Lists the values of a hash record.
pub fn hvals_command(key: &str) -> (r: RemoteCommand)
    ensures
        r.name@ == "HVALS"@,
        r.args.deep_view() == seq![key@],
{
    RemoteCommand { name: String::from_str("HVALS"), args: args1(key) }
}

/// Adds members to a set record.
pub fn sadd_command(key: &str, members: &Vec<String>) -> (r: RemoteCommand)
    ensures
        r.name@ == "SADD"@,
        r.args.deep_view() == seq![key@] + members.deep_view(),
{
    let mut args: Vec<String> = Vec::new();
    args.push(key.to_owned());
    let n = members.len();
    let mut i: usize = 0;
    while i < n
        invariant
            n == members@.len(),
            0 <= i <= n,
            args@.len() == i + 1,
            args@[0]@ == key@,
            forall|j: int| 1 <= j < i + 1 ==> (#[trigger] args@[j])@ == members.deep_view()[j - 1],
        decreases n - i,
    {
        args.push(members[i].clone());
        i += 1;
    }
    proof {
        assert(args.deep_view() =~= seq![key@] + members.deep_view());
    }
    RemoteCommand { name: String::from_str("SADD"), args }
}

/// Asks for the cardinality of a set record.
pub fn scard_command(key: &str) -> (r: RemoteCommand)
    ensures
        r.name@ == "SCARD"@,
        r.args.deep_view() == seq![key@],
{
    RemoteCommand { name: String::from_str("SCARD"), args: args1(key) }
}

/// Asks for the difference of the named sets.
pub fn sdiff_command(keys: &[&str]) -> (r: RemoteCommand)
    ensures
        r.name@ == "SDIFF"@,
        r.args.deep_view() == keys.deep_view(),
{
    sets_command("SDIFF", keys)
}

/// Stores the difference of the named sets under a destination key.
pub fn sdiffstore_command(dest: &str, keys: &[&str]) -> (r: RemoteCommand)
    ensures
        r.name@ == "SDIFFSTORE"@,
        r.args.deep_view() == seq![dest@] + keys.deep_view(),
{
    RemoteCommand { name: String::from_str("SDIFFSTORE"), args: args_list(dest, keys) }
}

/// Asks for the intersection of the named sets.
pub fn sinter_command(keys: &[&str]) -> (r: RemoteCommand)
    ensures
        r.name@ == "SINTER"@,
        r.args.deep_view() == keys.deep_view(),
{
    sets_command("SINTER", keys)
}

/// Stores the intersection of the named sets under a destination key.
pub fn sinterstore_command(dest: &str, keys: &[&str]) -> (r: RemoteCommand)
    ensures
        r.name@ == "SINTERSTORE"@,
        r.args.deep_view() == seq![dest@] + keys.deep_view(),
{
    RemoteCommand { name: String::from_str("SINTERSTORE"), args: args_list(dest, keys) }
}

/// Asks whether a member is in a set record.
pub fn sismember_command(key: &str, member: &str) -> (r: RemoteCommand)
    ensures
        r.name@ == "SISMEMBER"@,
        r.args.deep_view() == seq![key@, member@],
{
    RemoteCommand { name: String::from_str("SISMEMBER"), args: args2(key, member) }
}

/// Lists the members of a set record.
pub fn smembers_command(key: &str) -> (r: RemoteCommand)
    ensures
        r.name@ == "SMEMBERS"@,
        r.args.deep_view() == seq![key@],
{
    RemoteCommand { name: String::from_str("SMEMBERS"), args: args1(key) }
}

/// Moves a member from one set record to another.
pub fn smove_command(key1: &str, key2: &str, member: &str) -> (r: RemoteCommand)
    ensures
        r.name@ == "SMOVE"@,
        r.args.deep_view() == seq![key1@, key2@, member@],
{
    RemoteCommand { name: String::from_str("SMOVE"), args: args3(key1, key2, member) }
}

/// Removes a member from a set record.
pub fn srem_command(key: &str, member: &str) -> (r: RemoteCommand)
    ensures
        r.name@ == "SREM"@,
        r.args.deep_view() == seq![key@, member@],
{
    RemoteCommand { name: String::from_str("SREM"), args: args2(key, member) }
}

/// Asks for the union of the named sets.
pub fn sunion_command(keys: &[&str]) -> (r: RemoteCommand)
    ensures
        r.name@ == "SUNION"@,
        r.args.deep_view() == keys.deep_view(),
{
    sets_command("SUNION", keys)
}

/// Stores the union of the named sets under a destination key.
pub fn sunionstore_command(dest: &str, keys: &[&str]) -> (r: RemoteCommand)
    ensures
        r.name@ == "SUNIONSTORE"@,
        r.args.deep_view() == seq![dest@] + keys.deep_view(),
{
    RemoteCommand { name: String::from_str("SUNIONSTORE"), args: args_list(dest, keys) }
}

/// A set-algebra command over a plain key list.
fn sets_command(name: &str, keys: &[&str]) -> (r: RemoteCommand)
    ensures
        r.name@ == name@,
        r.args.deep_view() == keys.deep_view(),
{
    let mut args: Vec<String> = Vec::new();
    let n = keys.len();
    let mut i: usize = 0;
    while i < n
        invariant
            n == keys@.len(),
            0 <= i <= n,
            args@.len() == i,
            forall|j: int| 0 <= j < i ==> (#[trigger] args@[j])@ == keys.deep_view()[j],
        decreases n - i,
    {
        args.push(keys[i].to_owned());
        i += 1;
    }
    proof {
        assert(args.deep_view() =~= keys.deep_view());
    }
    RemoteCommand { name: name.to_owned(), args }
}

/// Sets a key's time to live, in seconds.
pub fn expire_command(key: &str, ttl_secs: usize) -> (r: RemoteCommand)
    ensures
        r.name@ == "EXPIRE"@,
        r.args.deep_view() == seq![key@, crate::strings::dec_digits(ttl_secs as int)],
{
    let ttl = crate::strings::u64_to_string(ttl_secs as u64);
    let args = args2(key, ttl.as_str());
    RemoteCommand { name: String::from_str("EXPIRE"), args }
}

/// Deletes a key outright.
pub fn del_command(key: &str) -> (r: RemoteCommand)
    ensures
        r.name@ == "DEL"@,
        r.args.deep_view() == seq![key@],
{
    RemoteCommand { name: String::from_str("DEL"), args: args1(key) }
}

/// Asks whether a key exists.
pub fn exists_command(key: &str) -> (r: RemoteCommand)
    ensures
        r.name@ == "EXISTS"@,
        r.args.deep_view() == seq![key@],
{
    RemoteCommand { name: String::from_str("EXISTS"), args: args1(key) }
}

/// The (field, value) pairs a flat hash reply carries: the items taken two
/// by two, or nothing when the shape is not a whole list of pairs.
pub open spec fn spec_reply_pairs(items: Seq<Option<Seq<char>>>) -> Option<
    Seq<(Seq<char>, Seq<char>)>,
> {
    if items.len() % 2 == 0 && (forall|j: int| 0 <= j < items.len() ==> #[trigger] items[j] is Some) {
        Some(Seq::new(
            items.len() / 2,
            |k: int| (items[2 * k]->Some_0, items[2 * k + 1]->Some_0),
        ))
    } else {
        None
    }
}

/// The record a reply to a whole-hash read denotes, or nothing when the
/// reply has another shape.
pub open spec fn spec_reply_record(reply: RemoteReply) -> Option<Map<Seq<char>, Seq<char>>> {
    match reply {
        RemoteReply::Bulk(items) => match spec_reply_pairs(items.deep_view()) {
            Some(ps) => Some(crate::memory_cache::spec_set_fields(Map::empty(), ps)),
            None => None,
        },
        _ => None,
    }
}

/// Interprets a whole-hash reply as a flat record: the items paired up in
/// order, a later pair for the same field shadowing an earlier one. Any
/// other shape is an access error; a protocol error is passed through.
pub fn interpret_record(reply: &RemoteReply) -> (r: Result<FieldMap, CacheError>)
    ensures
        match r {
            Ok(fm) => fm.wf() && spec_reply_record(*reply) == Some(fm@),
            Err(e) => {
                &&& spec_reply_record(*reply) is None
                &&& (*reply matches RemoteReply::Error(m) ==> e == CacheError::RedisCacheError(m))
                &&& (!(*reply is Error) ==> e is AccessError)
            },
        },
{
    let items = match reply {
        RemoteReply::Bulk(items) => items,
        RemoteReply::Error(e) => {
            return Err(CacheError::RedisCacheError(e.clone()));
        },
        _ => {
            return Err(CacheError::AccessError(String::from_str("unexpected reply shape")));
        },
    };
    let n = items.len();
    if n % 2 != 0 {
        return Err(CacheError::AccessError(String::from_str("odd hash reply")));
    }
    let ghost dv = items.deep_view();
    let mut fm = FieldMap::new();
    let mut i: usize = 0;
    while i < n
        invariant
            *reply is Bulk,
            (reply->Bulk_0).deep_view() == dv,
            n == items@.len(),
            dv == items.deep_view(),
            dv.len() == n,
            n % 2 == 0,
            0 <= i <= n,
            i % 2 == 0,
            forall|j: int| 0 <= j < i ==> #[trigger] dv[j] is Some,
            fm.wf(),
            fm@ == crate::memory_cache::spec_set_fields(
                Map::empty(),
                Seq::new((i as int / 2) as nat, |k: int| (dv[2 * k]->Some_0, dv[2 * k + 1]->Some_0)),
            ),
        decreases n - i,
    {
        let f = match &items[i] {
            Some(f) => f.clone(),
            None => {
                proof {
                    assert(dv[i as int] is None);
                }
                return Err(CacheError::AccessError(String::from_str("nil hash field")));
            },
        };
        let v = match &items[i + 1] {
            Some(v) => v.clone(),
            None => {
                proof {
                    assert(dv[i as int + 1] is None);
                }
                return Err(CacheError::AccessError(String::from_str("nil hash value")));
            },
        };
        proof {
            let ps_pre = Seq::new(
                (i as int / 2) as nat,
                |k: int| (dv[2 * k]->Some_0, dv[2 * k + 1]->Some_0),
            );
            let ps_post = Seq::new(
                ((i + 2) as int / 2) as nat,
                |k: int| (dv[2 * k]->Some_0, dv[2 * k + 1]->Some_0),
            );
            assert(ps_post.drop_last() =~= ps_pre);
            assert(ps_post.last() == (dv[i as int]->Some_0, dv[i as int + 1]->Some_0));
        }
        fm.set(f, v);
        i += 2;
    }
    proof {
        assert(spec_reply_pairs(dv) == Some(Seq::new(
            (n as int / 2) as nat,
            |k: int| (dv[2 * k]->Some_0, dv[2 * k + 1]->Some_0),
        )));
    }
    Ok(fm)
}

/// Interprets a reply to a plain write: any non-error reply is success.
pub fn interpret_ok(reply: &RemoteReply) -> (r: Result<(), CacheError>)
    ensures
        match r {
            Ok(_) => !(reply is Error),
            Err(e) => *reply matches RemoteReply::Error(m) && e == CacheError::RedisCacheError(m),
        },
{
    match reply {
        RemoteReply::Error(e) => Err(CacheError::RedisCacheError(e.clone())),
        _ => Ok(()),
    }
}

/// What a reply means as a truth value, when it means one.
pub open spec fn spec_reply_bool(reply: RemoteReply) -> Option<bool> {
    match reply {
        RemoteReply::Nil => Some(false),
        RemoteReply::Int(i) => Some(i != 0),
        RemoteReply::Status(_) => Some(true),
        RemoteReply::Data(s) => Some(s@ == "1"@),
        _ => None,
    }
}

/// Interprets a reply as a truth value: zero and nil are false, a
/// non-zero count or a status line is true.
pub fn interpret_bool(reply: &RemoteReply) -> (r: Result<bool, CacheError>)
    ensures
        match r {
            Ok(b) => spec_reply_bool(*reply) == Some(b),
            Err(e) => {
                &&& spec_reply_bool(*reply) is None
                &&& (*reply matches RemoteReply::Error(m) ==> e == CacheError::RedisCacheError(m))
                &&& (!(*reply is Error) ==> e is AccessError)
            },
        },
{
    match reply {
        RemoteReply::Nil => Ok(false),
        RemoteReply::Int(i) => Ok(*i != 0),
        RemoteReply::Status(_) => Ok(true),
        RemoteReply::Data(s) => Ok(crate::strings::str_eq(s.as_str(), "1")),
        RemoteReply::Error(e) => Err(CacheError::RedisCacheError(e.clone())),
        _ => Err(CacheError::AccessError(String::from_str("unexpected reply shape"))),
    }
}

/// What a reply means as a count, when it means one.
pub open spec fn spec_reply_count(reply: RemoteReply) -> Option<u64> {
    match reply {
        RemoteReply::Nil => Some(0),
        RemoteReply::Int(i) => if i >= 0 {
            Some(i as u64)
        } else {
            None
        },
        _ => None,
    }
}

/// Interprets a reply as a non-negative count.
pub fn interpret_count(reply: &RemoteReply) -> (r: Result<u64, CacheError>)
    ensures
        match r {
            Ok(n) => spec_reply_count(*reply) == Some(n),
            Err(e) => {
                &&& spec_reply_count(*reply) is None
                &&& (*reply matches RemoteReply::Error(m) ==> e == CacheError::RedisCacheError(m))
                &&& (!(*reply is Error) ==> e is AccessError)
            },
        },
{
    match reply {
        RemoteReply::Nil => Ok(0),
        RemoteReply::Int(i) => {
            if *i >= 0 {
                Ok(*i as u64)
            } else {
                Err(CacheError::AccessError(String::from_str("negative count")))
            }
        },
        RemoteReply::Error(e) => Err(CacheError::RedisCacheError(e.clone())),
        _ => Err(CacheError::AccessError(String::from_str("unexpected reply shape"))),
    }
}

/// What a reply means as one optional string value, when it means one.
pub open spec fn spec_reply_opt(reply: RemoteReply) -> Option<Option<Seq<char>>> {
    match reply {
        RemoteReply::Nil => Some(None),
        RemoteReply::Data(s) => Some(Some(s@)),
        _ => None,
    }
}

/// Interprets a reply as one optional string value: nil is absence.
pub fn interpret_opt_string(reply: &RemoteReply) -> (r: Result<Option<String>, CacheError>)
    ensures
        match r {
            Ok(None) => spec_reply_opt(*reply) == Some(None::<Seq<char>>),
            Ok(Some(v)) => spec_reply_opt(*reply) == Some(Some(v@)),
            Err(e) => {
                &&& spec_reply_opt(*reply) is None
                &&& (*reply matches RemoteReply::Error(m) ==> e == CacheError::RedisCacheError(m))
                &&& (!(*reply is Error) ==> e is AccessError)
            },
        },
{
    match reply {
        RemoteReply::Nil => Ok(None),
        RemoteReply::Data(s) => Ok(Some(s.clone())),
        RemoteReply::Error(e) => Err(CacheError::RedisCacheError(e.clone())),
        _ => Err(CacheError::AccessError(String::from_str("unexpected reply shape"))),
    }
}

/// What a reply means as a string list, when it means one.
pub open spec fn spec_reply_list(reply: RemoteReply) -> Option<Seq<Seq<char>>> {
    match reply {
        RemoteReply::Nil => Some(Seq::empty()),
        RemoteReply::Bulk(items) => if forall|j: int|
            0 <= j < items.deep_view().len() ==> #[trigger] items.deep_view()[j] is Some {
            Some(Seq::new(items.deep_view().len(), |j: int| items.deep_view()[j]->Some_0))
        } else {
            None
        },
        _ => None,
    }
}

/// Interprets a reply as a list of strings: nil is the empty list; a hole
/// in the list is an unexpected shape.
pub fn interpret_string_list(reply: &RemoteReply) -> (r: Result<Vec<String>, CacheError>)
    ensures
        match r {
            Ok(vs) => spec_reply_list(*reply) == Some(vs.deep_view()),
            Err(e) => {
                &&& spec_reply_list(*reply) is None
                &&& (*reply matches RemoteReply::Error(m) ==> e == CacheError::RedisCacheError(m))
                &&& (!(*reply is Error) ==> e is AccessError)
            },
        },
{
    let items = match reply {
        RemoteReply::Nil => {
            let vs: Vec<String> = Vec::new();
            proof {
                assert(vs.deep_view() =~= Seq::<Seq<char>>::empty());
            }
            return Ok(vs);
        },
        RemoteReply::Bulk(items) => items,
        RemoteReply::Error(e) => {
            return Err(CacheError::RedisCacheError(e.clone()));
        },
        _ => {
            return Err(CacheError::AccessError(String::from_str("unexpected reply shape")));
        },
    };
    let ghost dv = items.deep_view();
    let n = items.len();
    let mut vs: Vec<String> = Vec::new();
    let mut i: usize = 0;
    while i < n
        invariant
            *reply is Bulk,
            (reply->Bulk_0).deep_view() == dv,
            n == items@.len(),
            dv == items.deep_view(),
            dv.len() == n,
            0 <= i <= n,
            vs@.len() == i,
            forall|j: int| 0 <= j < i ==> #[trigger] dv[j] is Some,
            forall|j: int| 0 <= j < i ==> (#[trigger] vs@[j])@ == dv[j]->Some_0,
        decreases n - i,
    {
        match &items[i] {
            Some(v) => vs.push(v.clone()),
            None => {
                proof {
                    assert(dv[i as int] is None);
                }
                return Err(CacheError::AccessError(String::from_str("nil list item")));
            },
        }
        i += 1;
    }
    proof {
        assert(spec_reply_list(*reply) == Some(Seq::new(dv.len(), |j: int| dv[j]->Some_0)));
        assert(vs.deep_view() =~= Seq::new(dv.len(), |j: int| dv[j]->Some_0));
    }
    Ok(vs)
}

/// What a reply means as a list of optional string values.
pub open spec fn spec_reply_opt_list(reply: RemoteReply) -> Option<Seq<Option<Seq<char>>>> {
    match reply {
        RemoteReply::Nil => Some(Seq::empty()),
        RemoteReply::Bulk(items) => Some(items.deep_view()),
        _ => None,
    }
}

/// Interprets a reply as a list of optional string values, one per asked
/// field, nil marking absence.
pub fn interpret_opt_string_list(reply: &RemoteReply) -> (r: Result<Vec<Option<String>>, CacheError>)
    ensures
        match r {
            Ok(vs) => spec_reply_opt_list(*reply) == Some(vs.deep_view()),
            Err(e) => {
                &&& spec_reply_opt_list(*reply) is None
                &&& (*reply matches RemoteReply::Error(m) ==> e == CacheError::RedisCacheError(m))
                &&& (!(*reply is Error) ==> e is AccessError)
            },
        },
{
    let items = match reply {
        RemoteReply::Nil => {
            let vs: Vec<Option<String>> = Vec::new();
            proof {
                assert(vs.deep_view() =~= Seq::<Option<Seq<char>>>::empty());
            }
            return Ok(vs);
        },
        RemoteReply::Bulk(items) => items,
        RemoteReply::Error(e) => {
            return Err(CacheError::RedisCacheError(e.clone()));
        },
        _ => {
            return Err(CacheError::AccessError(String::from_str("unexpected reply shape")));
        },
    };
    let ghost dv = items.deep_view();
    let n = items.len();
    let mut vs: Vec<Option<String>> = Vec::new();
    let mut i: usize = 0;
    while i < n
        invariant
            n == items@.len(),
            dv == items.deep_view(),
            dv.len() == n,
            0 <= i <= n,
            vs@.len() == i,
            forall|j: int| 0 <= j < i ==> #[trigger] vs.deep_view()[j] == dv[j],
        decreases n - i,
    {
        let ghost vs_pre = vs.deep_view();
        match &items[i] {
            Some(v) => vs.push(Some(v.clone())),
            None => vs.push(None),
        }
        proof {
            assert(vs.deep_view() =~= vs_pre.push(dv[i as int]));
        }
        i += 1;
    }
    proof {
        assert(vs.deep_view() =~= dv);
    }
    Ok(vs)
}

/// Authenticates a fresh connection.
pub fn auth_command(password: &str) -> (r: RemoteCommand)
    ensures
        r.name@ == "AUTH"@,
        r.args.deep_view() == seq![password@],
{
    RemoteCommand { name: String::from_str("AUTH"), args: args1(password) }
}

/// Selects the logical database of a fresh connection.
pub fn select_command(db: u16) -> (r: RemoteCommand)
    ensures
        r.name@ == "SELECT"@,
        r.args.deep_view() == seq![crate::strings::dec_digits(db as int)],
{
    let d = crate::strings::u64_to_string(db as u64);
    let args = args1(d.as_str());
    RemoteCommand { name: String::from_str("SELECT"), args }
}
} // verus!
