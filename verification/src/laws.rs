//! The laws both engines answer to, proved over the same specification
//! functions that the engines' contracts are stated with.

use vstd::prelude::*;

use crate::commands::spec_reply_record;
use crate::commands::RemoteReply;
use crate::memory_cache::spec_obj_lookup;
use crate::memory_cache::spec_obj_purge;
use crate::memory_cache::EntryModel;
use crate::Cacheable;

verus! {

/// Round trip on the in-process engine: storing a value's record under a
/// key and reading that key back, at any time before the entry expires,
/// yields a record that reconstructs exactly the stored value.
pub proof fn lemma_memory_insert_get_round_trip<O: Cacheable>(
    objs: Map<Seq<char>, EntryModel>,
    key: Seq<char>,
    v: O::V,
    expires_at: Option<int>,
    now: int,
)
    requires
        expires_at matches Some(t) ==> now < t,
    ensures
        ({
            let stored = objs.insert(key, EntryModel { record: O::spec_record_of(v), expires_at });
            &&& spec_obj_lookup(stored, key, now) == Some(O::spec_record_of(v))
            &&& O::spec_parse_record(spec_obj_lookup(stored, key, now)->Some_0) == Some(v)
            &&& spec_obj_purge(stored, key, now) == stored
        }),
{
    O::lemma_round_trip(v);
}

/// Round trip on the remote engine: when the remote store answers a
/// whole-hash read with exactly the record that an insert of `v` wrote,
/// the reconstruction yields exactly `v`.
pub proof fn lemma_remote_insert_get_round_trip<O: Cacheable>(v: O::V, rep: RemoteReply)
    requires
        spec_reply_record(rep) == Some(O::spec_record_of(v)),
    ensures
        O::spec_parse_record(spec_reply_record(rep)->Some_0) == Some(v),
{
    O::lemma_round_trip(v);
}

/// Idempotent remove: deleting an absent key leaves the store exactly as
/// it was, and deleting the same key twice is the same as deleting it
/// once.
pub proof fn lemma_remove_idempotent(objs: Map<Seq<char>, EntryModel>, key: Seq<char>)
    ensures
        !objs.contains_key(key) ==> objs.remove(key) == objs,
        objs.remove(key).remove(key) == objs.remove(key),
{
    if !objs.contains_key(key) {
        assert(objs.remove(key) =~= objs);
    }
    assert(objs.remove(key).remove(key) =~= objs.remove(key));
}

/// Lazy expiration on the in-process engine, around one entry stored at
/// time `t0` with a time to live of `ttl` seconds. Before the deadline a
/// read returns the record and deletes nothing. From the deadline on, a
/// read returns nothing and deletes the entry. Presence, however, is
/// reported as stored: before any read has purged the entry, a logically
/// expired entry still counts as present; after the purging read it does
/// not.
pub proof fn lemma_expiration(
    objs: Map<Seq<char>, EntryModel>,
    key: Seq<char>,
    record: Map<Seq<char>, Seq<char>>,
    t0: int,
    ttl: int,
    before: int,
    after: int,
)
    requires
        before < t0 + ttl,
        after >= t0 + ttl,
    ensures
        ({
            let stored = objs.insert(key, EntryModel { record, expires_at: Some(t0 + ttl) });
            &&& spec_obj_lookup(stored, key, before) == Some(record)
            &&& spec_obj_purge(stored, key, before) == stored
            &&& stored.contains_key(key)
            &&& spec_obj_lookup(stored, key, after) is None
            &&& spec_obj_purge(stored, key, after) == stored.remove(key)
            &&& !spec_obj_purge(stored, key, after).contains_key(key)
        }),
{
}
} // verus!
