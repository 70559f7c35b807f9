//! The in-process engine: a type-partitioned object store with lazy
//! time-based expiration, plus independent hash-record and set-record
//! surfaces. `Inner` is the sequential core with exact contracts; the
//! shared, cloneable `MemoryCache` handle wraps it in a reader/writer lock.

use std::sync::Arc;

use vstd::prelude::*;
use vstd::hash_map::StringHashMap;
use vstd::rwlock::RwLock;
use vstd::rwlock::RwLockPredicate;

use crate::error::CacheError;
use crate::record::FieldMap;
use crate::strings::FromCacheString;
use crate::strings::ToCacheString;
use crate::stringset::StringSet;
use crate::Cacheable;
use crate::gen_key;
use crate::spec_composite_key;

verus! {

/// Relies on std::time::SystemTime for the wall clock: the seconds since
/// the Unix epoch. Nothing is assumed of the value; the engine's exact
/// semantics are stated over an explicit time argument.
#[verifier::external_body]
pub fn now_seconds() -> u64 {
    match std::time::SystemTime::now().duration_since(std::time::UNIX_EPOCH) {
        Ok(d) => d.as_secs(),
        Err(_) => 0,
    }
}

/// When an entry was inserted and how long it is to live, in seconds.
pub struct Expiration {
    /// Seconds since the Unix epoch at insertion time.
    pub insertion_time: u64,
    /// Seconds to live from insertion.
    pub ttl: u64,
}

impl Expiration {
    /// The moment from which the entry counts as expired.
    pub open spec fn spec_expires_at(&self) -> int {
        self.insertion_time + self.ttl
    }

    /// An expiration of `ttl` seconds starting at `now`.
    pub fn at(now: u64, ttl: usize) -> (r: Expiration)
        ensures
            r.insertion_time == now,
            r.ttl == ttl as u64,
    {
        Expiration { insertion_time: now, ttl: ttl as u64 }
    }

    /// An expiration of `ttl` seconds starting now, on the system clock.
    pub fn new(ttl: usize) -> (r: Expiration)
        ensures
            r.ttl == ttl as u64,
    {
        Expiration::at(now_seconds(), ttl)
    }

    /// Whether the entry counts as expired at time `now`.
    pub fn expired_at(&self, now: u64) -> (r: bool)
        ensures
            r == (now >= self.spec_expires_at()),
    {
        match self.insertion_time.checked_add(self.ttl) {
            Some(t) => now >= t,
            None => false,
        }
    }

    /// Whether the entry counts as expired now, on the system clock.
    pub fn is_expired(&self) -> bool {
        self.expired_at(now_seconds())
    }
}

/// What one stored object looks like to the specification: its flat record
/// and the moment it expires, if any.
pub struct EntryModel {
    pub record: Map<Seq<char>, Seq<char>>,
    pub expires_at: Option<int>,
}

/// Whether a stored entry counts as expired at time `now`.
pub open spec fn entry_expired(e: EntryModel, now: int) -> bool {
    match e.expires_at {
        Some(t) => now >= t,
        None => false,
    }
}

/// A stored object: its flat record and optional expiration.
struct StoredEntry {
    record: FieldMap,
    exp: Option<Expiration>,
}

impl StoredEntry {
    spec fn model(self) -> EntryModel {
        EntryModel {
            record: self.record@,
            expires_at: match self.exp {
                Some(e) => Some(e.spec_expires_at()),
                None => None,
            },
        }
    }
}

/// What a typed read at time `now` returns: the record, unless the key is
/// absent or the entry has expired.
pub open spec fn spec_obj_lookup(
    objs: Map<Seq<char>, EntryModel>,
    key: Seq<char>,
    now: int,
) -> Option<Map<Seq<char>, Seq<char>>> {
    if objs.contains_key(key) && !entry_expired(objs[key], now) {
        Some(objs[key].record)
    } else {
        None
    }
}

/// What a typed read at time `now` leaves behind: an expired entry is
/// deleted; nothing else changes.
pub open spec fn spec_obj_purge(
    objs: Map<Seq<char>, EntryModel>,
    key: Seq<char>,
    now: int,
) -> Map<Seq<char>, EntryModel> {
    if objs.contains_key(key) && entry_expired(objs[key], now) {
        objs.remove(key)
    } else {
        objs
    }
}

/// The type-partitioned object store of the in-process engine.
pub struct ObjStore {
    obj_cache: StringHashMap<StoredEntry>,
}

/// The hash-record store of the in-process engine.
pub struct HashStore {
    hashsets: StringHashMap<FieldMap>,
}

/// The set-record store of the in-process engine.
pub struct SetStore {
    sets: StringHashMap<StringSet>,
}

impl ObjStore {
    /// Internal well-formedness: every stored record is well-formed.
    pub closed spec fn wf(&self) -> bool {
        forall|k: Seq<char>| self.obj_cache@.contains_key(k)
            ==> (#[trigger] self.obj_cache@[k]).record.wf()
    }

    /// The object store: composite key to stored entry.
    pub closed spec fn objs(&self) -> Map<Seq<char>, EntryModel> {
        Map::new(
            |k: Seq<char>| self.obj_cache@.contains_key(k),
            |k: Seq<char>| self.obj_cache@[k].model(),
        )
    }

    /// An object store with nothing stored.
    pub fn new() -> (r: ObjStore)
        ensures
            r.wf(),
            r.objs() == Map::<Seq<char>, EntryModel>::empty(),
    {
        let r = ObjStore { obj_cache: StringHashMap::new() };
        proof {
            assert(r.objs() =~= Map::<Seq<char>, EntryModel>::empty());
        }
        r
    }

    /// Stores a record under a composite key, overwriting unconditionally.
    pub fn obj_insert(&mut self, key: String, record: FieldMap, exp: Option<Expiration>)
        requires
            old(self).wf(),
            record.wf(),
        ensures
            final(self).wf(),
            final(self).objs() == old(self).objs().insert(key@, EntryModel {
                record: record@,
                expires_at: match exp {
                    Some(e) => Some(e.spec_expires_at()),
                    None => None,
                },
            }),
    {
        let ghost k = key@;
        let ghost m = (StoredEntry { record, exp }).model();
        self.obj_cache.insert(key, StoredEntry { record, exp });
        proof {
            assert(self.objs() =~= old(self).objs().insert(k, m));
        }
    }

    /// Reads the record under a composite key at time `now`: an absent key
    /// reads as nothing; an expired entry is deleted and reads as nothing.
    pub fn obj_get_at(&mut self, key: &str, now: u64) -> (r: Option<FieldMap>)
        requires
            old(self).wf(),
        ensures
            final(self).wf(),
            final(self).objs() == spec_obj_purge(old(self).objs(), key@, now as int),
            match r {
                Some(rec) => rec.wf()
                    && spec_obj_lookup(old(self).objs(), key@, now as int) == Some(rec@),
                None => spec_obj_lookup(old(self).objs(), key@, now as int) is None,
            },
    {
        let mut expired = false;
        let mut found: Option<FieldMap> = None;
        match self.obj_cache.get(key) {
            None => {
                return None;
            },
            Some(entry) => {
                let is_exp = match &entry.exp {
                    Some(e) => e.expired_at(now),
                    None => false,
                };
                if is_exp {
                    expired = true;
                } else {
                    found = Some(entry.record.clone());
                }
            },
        }
        if expired {
            self.obj_cache.remove(key);
            proof {
                assert(self.objs() =~= spec_obj_purge(old(self).objs(), key@, now as int));
            }
            return None;
        }
        found
    }

    /// Whether a composite key is present, expired or not: presence alone,
    /// with no expiration cleanup.
    pub fn obj_contains(&self, key: &str) -> (r: bool)
        ensures
            r == self.objs().contains_key(key@),
    {
        self.obj_cache.contains_key(key)
    }

    /// Deletes a composite key; deleting an absent key changes nothing.
    pub fn obj_remove(&mut self, key: &str)
        requires
            old(self).wf(),
        ensures
            final(self).wf(),
            final(self).objs() == old(self).objs().remove(key@),
    {
        self.obj_cache.remove(key);
        proof {
            assert(self.objs() =~= old(self).objs().remove(key@));
        }
    }
}

impl HashStore {
    /// Internal well-formedness: every stored record is well-formed.
    pub closed spec fn wf(&self) -> bool {
        forall|k: Seq<char>| self.hashsets@.contains_key(k)
            ==> (#[trigger] self.hashsets@[k]).wf()
    }

    /// The hash-record store: key to field dictionary.
    pub closed spec fn hashes(&self) -> Map<Seq<char>, Map<Seq<char>, Seq<char>>> {
        Map::new(
            |k: Seq<char>| self.hashsets@.contains_key(k),
            |k: Seq<char>| self.hashsets@[k]@,
        )
    }

    /// A hash store with nothing stored.
    pub fn new() -> (r: HashStore)
        ensures
            r.wf(),
            r.hashes() == Map::<Seq<char>, Map<Seq<char>, Seq<char>>>::empty(),
    {
        let r = HashStore { hashsets: StringHashMap::new() };
        proof {
            assert(r.hashes() =~= Map::<Seq<char>, Map<Seq<char>, Seq<char>>>::empty());
        }
        r
    }

    /// Auto-creates the backing dictionary for a hash key.
    pub fn ensure_hash_exists(&mut self, key: &str) -> (r: Result<(), crate::CacheError>)
        requires
            old(self).wf(),
        ensures
            final(self).wf(),
            final(self).hashes() == old(self).hashes().insert(
                key@, hash_at(old(self).hashes(), key@)),
            r is Ok,
    {
        if !self.hashsets.contains_key(key) {
            self.hashsets.insert(key.to_owned(), FieldMap::new());
        }
        proof {
            assert(self.hashes() =~= old(self).hashes().insert(
                key@, hash_at(old(self).hashes(), key@)));
        }
        Ok(())
    }

    /// Sets one field of a hash record, creating the record if absent.
    pub fn hash_set(&mut self, key: &str, field: String, value: String)
        requires
            old(self).wf(),
        ensures
            final(self).wf(),
            final(self).hashes() == old(self).hashes().insert(
                key@, hash_at(old(self).hashes(), key@).insert(field@, value@)),
    {
        let mut rec = match self.hashsets.get(key) {
            Some(h) => h.clone(),
            None => FieldMap::new(),
        };
        rec.set(field, value);
        self.hashsets.insert(key.to_owned(), rec);
        proof {
            assert(self.hashes() =~= old(self).hashes().insert(
                key@, hash_at(old(self).hashes(), key@).insert(field@, value@)));
        }
    }

    /// Sets several fields of a hash record in order, creating the record
    /// if absent.
    pub fn hash_multiple_set(&mut self, key: &str, pairs: &Vec<(String, String)>)
        requires
            old(self).wf(),
        ensures
            final(self).wf(),
            final(self).hashes() == old(self).hashes().insert(
                key@,
                spec_set_fields(hash_at(old(self).hashes(), key@), pairs.deep_view()),
            ),
    {
        let mut rec = match self.hashsets.get(key) {
            Some(h) => h.clone(),
            None => FieldMap::new(),
        };
        let n = pairs.len();
        let mut i: usize = 0;
        while i < n
            invariant
                rec.wf(),
                n == pairs@.len(),
                0 <= i <= n,
                rec@ == spec_set_fields(
                    hash_at(old(self).hashes(), key@),
                    pairs.deep_view().subrange(0, i as int),
                ),
                self.wf(),
                self.hashsets@ == old(self).hashsets@,
            decreases n - i,
        {
            rec.set(pairs[i].0.clone(), pairs[i].1.clone());
            proof {
                assert(pairs.deep_view().subrange(0, i as int + 1).drop_last()
                    =~= pairs.deep_view().subrange(0, i as int));
            }
            i += 1;
        }
        self.hashsets.insert(key.to_owned(), rec);
        proof {
            assert(pairs.deep_view().subrange(0, n as int) =~= pairs.deep_view());
            assert(self.hashes() =~= old(self).hashes().insert(
                key@,
                spec_set_fields(hash_at(old(self).hashes(), key@), pairs.deep_view()),
            ));
        }
    }

    /// Reads one field of a hash record; an absent key or field reads as
    /// nothing.
    pub fn hash_get(&self, key: &str, field: &str) -> (r: Option<String>)
        requires
            self.wf(),
        ensures
            match r {
                Some(v) => hash_at(self.hashes(), key@).contains_key(field@)
                    && v@ == hash_at(self.hashes(), key@)[field@],
                None => !hash_at(self.hashes(), key@).contains_key(field@),
            },
    {
        match self.hashsets.get(key) {
            Some(h) => match h.get(field) {
                Some(v) => Some(v.clone()),
                None => None,
            },
            None => None,
        }
    }

    /// Whether a field of a hash record is present; an absent key has no
    /// fields.
    pub fn hash_exists(&self, key: &str, field: &str) -> (r: bool)
        requires
            self.wf(),
        ensures
            r == hash_at(self.hashes(), key@).contains_key(field@),
    {
        match self.hashsets.get(key) {
            Some(h) => h.contains_field(field),
            None => false,
        }
    }

    /// Deletes fields of a hash record, each idempotently; an absent key
    /// changes nothing.
    pub fn hash_delete(&mut self, key: &str, fields: &[&str])
        requires
            old(self).wf(),
        ensures
            final(self).wf(),
            final(self).hashes() == spec_delete_fields(
                old(self).hashes(), key@, fields.deep_view()),
    {
        let mut rec = match self.hashsets.get(key) {
            Some(h) => h.clone(),
            None => {
                proof {
                    assert(self.hashes() =~= spec_delete_fields(
                        old(self).hashes(), key@, fields.deep_view()));
                }
                return ;
            },
        };
        let n = fields.len();
        let mut i: usize = 0;
        while i < n
            invariant
                rec.wf(),
                n == fields@.len(),
                0 <= i <= n,
                old(self).hashes().contains_key(key@),
                rec@ == spec_remove_fields(
                    old(self).hashes()[key@],
                    fields.deep_view().subrange(0, i as int),
                ),
                self.wf(),
                self.hashsets@ == old(self).hashsets@,
            decreases n - i,
        {
            rec.remove(fields[i]);
            proof {
                assert(fields.deep_view().subrange(0, i as int + 1).drop_last()
                    =~= fields.deep_view().subrange(0, i as int));
            }
            i += 1;
        }
        self.hashsets.insert(key.to_owned(), rec);
        proof {
            assert(fields.deep_view().subrange(0, n as int) =~= fields.deep_view());
            assert(self.hashes() =~= spec_delete_fields(
                old(self).hashes(), key@, fields.deep_view()));
        }
    }

    /// The field names of a hash record, in some order, without
    /// duplicates; an absent key has none.
    pub fn hash_keys(&self, key: &str) -> (r: Vec<String>)
        requires
            self.wf(),
        ensures
            r.deep_view().no_duplicates(),
            r.deep_view().to_set() == hash_at(self.hashes(), key@).dom(),
    {
        match self.hashsets.get(key) {
            Some(h) => {
                proof {
                    h.lemma_wf_props();
                }
                h.fields()
            },
            None => {
                let r: Vec<String> = Vec::new();
                proof {
                    assert(r.deep_view() =~= Seq::<Seq<char>>::empty());
                    assert(r.deep_view().to_set() =~= hash_at(self.hashes(), key@).dom());
                }
                r
            },
        }
    }

    /// The values of a hash record, in some order, one per field; an
    /// absent key has none.
    pub fn hash_values(&self, key: &str) -> (r: Vec<String>)
        requires
            self.wf(),
        ensures
            exists|fs: Seq<Seq<char>>|
                {
                    &&& fs.no_duplicates()
                    &&& fs.to_set() == hash_at(self.hashes(), key@).dom()
                    &&& r.deep_view().len() == fs.len()
                    &&& forall|i: int| 0 <= i < fs.len()
                        ==> r.deep_view()[i] == hash_at(self.hashes(), key@)[#[trigger] fs[i]]
                },
    {
        match self.hashsets.get(key) {
            Some(h) => {
                proof {
                    h.lemma_wf_props();
                }
                let r = h.values();
                proof {
                    let fs = h.spec_fields();
                    assert({
                        &&& fs.no_duplicates()
                        &&& fs.to_set() == hash_at(self.hashes(), key@).dom()
                        &&& r.deep_view().len() == fs.len()
                        &&& forall|i: int| 0 <= i < fs.len()
                            ==> r.deep_view()[i] == hash_at(self.hashes(), key@)[#[trigger] fs[i]]
                    });
                }
                r
            },
            None => {
                let r: Vec<String> = Vec::new();
                proof {
                    let fs = Seq::<Seq<char>>::empty();
                    assert(r.deep_view() =~= Seq::<Seq<char>>::empty());
                    assert(fs.to_set() =~= hash_at(self.hashes(), key@).dom());
                    assert({
                        &&& fs.no_duplicates()
                        &&& fs.to_set() == hash_at(self.hashes(), key@).dom()
                        &&& r.deep_view().len() == fs.len()
                        &&& forall|i: int| 0 <= i < fs.len()
                            ==> r.deep_view()[i] == hash_at(self.hashes(), key@)[#[trigger] fs[i]]
                    });
                }
                r
            },
        }
    }

    /// The number of fields of a hash record; an absent key has zero.
    pub fn hash_len(&self, key: &str) -> (r: usize)
        requires
            self.wf(),
        ensures
            r == hash_at(self.hashes(), key@).dom().len(),
    {
        match self.hashsets.get(key) {
            Some(h) => h.len(),
            None => {
                proof {
                    assert(hash_at(self.hashes(), key@).dom() =~= Set::<Seq<char>>::empty());
                }
                0
            },
        }
    }

    /// Reads several fields of a hash record: one optional value per asked
    /// field when the key is present, and nothing at all when it is absent.
    pub fn hash_multiple_get(&self, key: &str, fields: &[&str]) -> (r: Vec<Option<String>>)
        requires
            self.wf(),
        ensures
            spec_multi_get_outcome(self.hashes(), key@, fields.deep_view(), r@),
    {
        let mut r: Vec<Option<String>> = Vec::new();
        let h = match self.hashsets.get(key) {
            Some(h) => h,
            None => {
                return r;
            },
        };
        let n = fields.len();
        let mut i: usize = 0;
        while i < n
            invariant
                self.wf(),
                self.hashes().contains_key(key@),
                h.wf(),
                h@ == self.hashes()[key@],
                n == fields@.len(),
                0 <= i <= n,
                r@.len() == i,
                forall|j: int| 0 <= j < i ==> match #[trigger] r@[j] {
                    Some(v) => self.hashes()[key@].contains_key(fields.deep_view()[j])
                        && v@ == self.hashes()[key@][fields.deep_view()[j]],
                    None => !self.hashes()[key@].contains_key(fields.deep_view()[j]),
                },
            decreases n - i,
        {
            match h.get(fields[i]) {
                Some(v) => r.push(Some(v.clone())),
                None => r.push(None),
            }
            i += 1;
        }
        proof {
            assert(spec_multi_get_outcome(self.hashes(), key@, fields.deep_view(), r@));
        }
        r
    }

    /// Sets a field of a hash record only when absent, creating the record
    /// if need be; reports whether the field was written.
    pub fn hash_set_if_not_exists(&mut self, key: &str, field: String, value: String) -> (r: bool)
        requires
            old(self).wf(),
        ensures
            final(self).wf(),
            r == !hash_at(old(self).hashes(), key@).contains_key(field@),
            r ==> final(self).hashes() == old(self).hashes().insert(
                key@, hash_at(old(self).hashes(), key@).insert(field@, value@)),
            !r ==> final(self).hashes() == old(self).hashes().insert(
                key@, hash_at(old(self).hashes(), key@)),
    {
        let mut rec = match self.hashsets.get(key) {
            Some(h) => h.clone(),
            None => FieldMap::new(),
        };
        if rec.contains_field(field.as_str()) {
            self.hashsets.insert(key.to_owned(), rec);
            proof {
                assert(self.hashes() =~= old(self).hashes().insert(
                    key@, hash_at(old(self).hashes(), key@)));
            }
            false
        } else {
            rec.set(field, value);
            self.hashsets.insert(key.to_owned(), rec);
            proof {
                assert(self.hashes() =~= old(self).hashes().insert(
                    key@, hash_at(old(self).hashes(), key@).insert(field@, value@)));
            }
            true
        }
    }
}

/// The field dictionary under a hash key: empty when the key is absent.
pub open spec fn hash_at(
    h: Map<Seq<char>, Map<Seq<char>, Seq<char>>>,
    k: Seq<char>,
) -> Map<Seq<char>, Seq<char>> {
    if h.contains_key(k) {
        h[k]
    } else {
        Map::empty()
    }
}

/// What reading several fields under one key yields, against one snapshot
/// of the hash store: one optional value per asked field, each the stored
/// value or marked absent, when the key is present; nothing at all when
/// the key is absent.
pub open spec fn spec_multi_get_outcome(
    h: Map<Seq<char>, Map<Seq<char>, Seq<char>>>,
    key: Seq<char>,
    fields: Seq<Seq<char>>,
    vs: Seq<Option<String>>,
) -> bool {
    if h.contains_key(key) {
        &&& vs.len() == fields.len()
        &&& forall|i: int| 0 <= i < fields.len() ==> match #[trigger] vs[i] {
            Some(v) => h[key].contains_key(fields[i]) && v@ == h[key][fields[i]],
            None => !h[key].contains_key(fields[i]),
        }
    } else {
        vs.len() == 0
    }
}

/// A record after setting a list of fields in order.
pub open spec fn spec_set_fields(
    rec: Map<Seq<char>, Seq<char>>,
    pairs: Seq<(Seq<char>, Seq<char>)>,
) -> Map<Seq<char>, Seq<char>>
    decreases pairs.len(),
{
    if pairs.len() == 0 {
        rec
    } else {
        spec_set_fields(rec, pairs.drop_last()).insert(pairs.last().0, pairs.last().1)
    }
}

/// A record after removing a list of fields.
pub open spec fn spec_remove_fields(
    rec: Map<Seq<char>, Seq<char>>,
    fields: Seq<Seq<char>>,
) -> Map<Seq<char>, Seq<char>>
    decreases fields.len(),
{
    if fields.len() == 0 {
        rec
    } else {
        spec_remove_fields(rec, fields.drop_last()).remove(fields.last())
    }
}

/// The hash store after deleting fields under one key: unchanged when the
/// key is absent.
pub open spec fn spec_delete_fields(
    h: Map<Seq<char>, Map<Seq<char>, Seq<char>>>,
    k: Seq<char>,
    fields: Seq<Seq<char>>,
) -> Map<Seq<char>, Map<Seq<char>, Seq<char>>> {
    if h.contains_key(k) {
        h.insert(k, spec_remove_fields(h[k], fields))
    } else {
        h
    }
}

/// The member set under a set key: empty when the key is absent.
pub open spec fn set_at(s: Map<Seq<char>, Set<Seq<char>>>, k: Seq<char>) -> Set<Seq<char>> {
    if s.contains_key(k) {
        s[k]
    } else {
        Set::empty()
    }
}

/// The union of the member sets under a list of keys.
pub open spec fn spec_union_of(
    s: Map<Seq<char>, Set<Seq<char>>>,
    keys: Seq<Seq<char>>,
) -> Set<Seq<char>>
    decreases keys.len(),
{
    if keys.len() == 0 {
        Set::empty()
    } else {
        spec_union_of(s, keys.drop_last()).union(set_at(s, keys.last()))
    }
}

/// The intersection of the member sets under a non-empty list of keys;
/// an empty list gives the empty set.
pub open spec fn spec_inter_of(
    s: Map<Seq<char>, Set<Seq<char>>>,
    keys: Seq<Seq<char>>,
) -> Set<Seq<char>>
    decreases keys.len(),
{
    if keys.len() == 0 {
        Set::empty()
    } else if keys.len() == 1 {
        set_at(s, keys[0])
    } else {
        spec_inter_of(s, keys.drop_last()).intersect(set_at(s, keys.last()))
    }
}

/// The members of the first key's set that are under none of the others;
/// an empty list gives the empty set.
pub open spec fn spec_diff_of(
    s: Map<Seq<char>, Set<Seq<char>>>,
    keys: Seq<Seq<char>>,
) -> Set<Seq<char>> {
    if keys.len() == 0 {
        Set::empty()
    } else {
        set_at(s, keys[0]).difference(spec_union_of(s, keys.subrange(1, keys.len() as int)))
    }
}

impl SetStore {
    /// Internal well-formedness: every stored set is well-formed.
    pub closed spec fn wf(&self) -> bool {
        forall|k: Seq<char>| self.sets@.contains_key(k)
            ==> (#[trigger] self.sets@[k]).wf()
    }

    /// The set store: key to member set.
    pub closed spec fn set_records(&self) -> Map<Seq<char>, Set<Seq<char>>> {
        Map::new(
            |k: Seq<char>| self.sets@.contains_key(k),
            |k: Seq<char>| self.sets@[k]@,
        )
    }

    /// A set store with nothing stored.
    pub fn new() -> (r: SetStore)
        ensures
            r.wf(),
            r.set_records() == Map::<Seq<char>, Set<Seq<char>>>::empty(),
    {
        let r = SetStore { sets: StringHashMap::new() };
        proof {
            assert(r.set_records() =~= Map::<Seq<char>, Set<Seq<char>>>::empty());
        }
        r
    }

    /// Auto-creates the backing set for a set key.
    pub fn ensure_set_exists(&mut self, key: &str) -> (r: Result<(), crate::CacheError>)
        requires
            old(self).wf(),
        ensures
            final(self).wf(),
            final(self).set_records() == old(self).set_records().insert(
                key@, set_at(old(self).set_records(), key@)),
            r is Ok,
    {
        if !self.sets.contains_key(key) {
            self.sets.insert(key.to_owned(), StringSet::new());
        }
        proof {
            assert(self.set_records() =~= old(self).set_records().insert(
                key@, set_at(old(self).set_records(), key@)));
        }
        Ok(())
    }

    /// Whether a set key has a backing set.
    pub fn set_exists(&self, key: &str) -> (r: bool)
        ensures
            r == self.set_records().contains_key(key@),
    {
        self.sets.contains_key(key)
    }

    /// Adds members to the set under a key, creating the set if absent.
    pub fn set_add(&mut self, key: &str, members: &Vec<String>)
        requires
            old(self).wf(),
        ensures
            final(self).wf(),
            final(self).set_records() == old(self).set_records().insert(
                key@,
                set_at(old(self).set_records(), key@).union(members.deep_view().to_set()),
            ),
    {
        let mut st = match self.sets.get(key) {
            Some(s) => s.clone(),
            None => StringSet::new(),
        };
        let n = members.len();
        let mut i: usize = 0;
        while i < n
            invariant
                st.wf(),
                n == members@.len(),
                0 <= i <= n,
                st@ == set_at(old(self).set_records(), key@).union(
                    members.deep_view().subrange(0, i as int).to_set()),
                self.wf(),
                self.sets@ == old(self).sets@,
            decreases n - i,
        {
            proof {
                assert(members.deep_view().subrange(0, i as int + 1)
                    =~= members.deep_view().subrange(0, i as int).push(
                        members.deep_view()[i as int]));
                crate::stringset::lemma_to_set_push(
                    members.deep_view().subrange(0, i as int),
                    members.deep_view()[i as int],
                );
            }
            st.insert(members[i].clone());
            proof {
                assert(st@ =~= set_at(old(self).set_records(), key@).union(
                    members.deep_view().subrange(0, i as int + 1).to_set()));
            }
            i += 1;
        }
        self.sets.insert(key.to_owned(), st);
        proof {
            assert(members.deep_view().subrange(0, n as int) =~= members.deep_view());
            assert(self.set_records() =~= old(self).set_records().insert(
                key@,
                set_at(old(self).set_records(), key@).union(members.deep_view().to_set()),
            ));
        }
    }

    /// Removes a member from the set under a key; an absent key or member
    /// changes nothing. Reports whether the member was there.
    pub fn set_rem(&mut self, key: &str, member: &str) -> (r: bool)
        requires
            old(self).wf(),
        ensures
            final(self).wf(),
            final(self).set_records() == if old(self).set_records().contains_key(key@) {
                old(self).set_records().insert(
                    key@, old(self).set_records()[key@].remove(member@))
            } else {
                old(self).set_records()
            },
            r == set_at(old(self).set_records(), key@).contains(member@),
    {
        let mut st = match self.sets.get(key) {
            Some(s) => s.clone(),
            None => {
                return false;
            },
        };
        let r = st.remove(member);
        self.sets.insert(key.to_owned(), st);
        proof {
            assert(self.set_records() =~= old(self).set_records().insert(
                key@, old(self).set_records()[key@].remove(member@)));
        }
        r
    }

    /// The cardinality of the set under a key; an absent key has zero.
    pub fn set_card(&self, key: &str) -> (r: usize)
        requires
            self.wf(),
        ensures
            r == set_at(self.set_records(), key@).len(),
    {
        match self.sets.get(key) {
            Some(s) => s.len(),
            None => {
                proof {
                    assert(set_at(self.set_records(), key@) =~= Set::<Seq<char>>::empty());
                }
                0
            },
        }
    }

    /// Whether a member is in the set under a key; nothing is a member of
    /// an absent set.
    pub fn set_ismember(&self, key: &str, member: &str) -> (r: bool)
        requires
            self.wf(),
        ensures
            r == set_at(self.set_records(), key@).contains(member@),
    {
        match self.sets.get(key) {
            Some(s) => s.contains(member),
            None => false,
        }
    }

    /// The members of the set under a key, in some order, without
    /// duplicates; an absent key has none.
    pub fn set_members(&self, key: &str) -> (r: Vec<String>)
        requires
            self.wf(),
        ensures
            r.deep_view().no_duplicates(),
            r.deep_view().to_set() == set_at(self.set_records(), key@),
    {
        match self.sets.get(key) {
            Some(s) => s.members(),
            None => {
                let r: Vec<String> = Vec::new();
                proof {
                    assert(r.deep_view() =~= Seq::<Seq<char>>::empty());
                    assert(r.deep_view().to_set() =~= set_at(self.set_records(), key@));
                }
                r
            },
        }
    }

    /// Moves a member from one set to another: when present in the source
    /// it leaves the source and joins the destination; otherwise nothing
    /// changes. Reports whether it moved.
    pub fn set_move(&mut self, key1: &str, key2: &str, member: &str) -> (r: bool)
        requires
            old(self).wf(),
        ensures
            final(self).wf(),
            r == set_at(old(self).set_records(), key1@).contains(member@),
            r ==> final(self).set_records() == old(self).set_records()
                .insert(key1@, set_at(old(self).set_records(), key1@).remove(member@))
                .insert(key2@, set_at(old(self).set_records(), key2@).insert(member@)),
            !r ==> final(self).set_records() == old(self).set_records(),
    {
        let mut src = match self.sets.get(key1) {
            Some(s) => s.clone(),
            None => {
                return false;
            },
        };
        if !src.remove(member) {
            return false;
        }
        self.sets.insert(key1.to_owned(), src);
        let mut dst = match self.sets.get(key2) {
            Some(s) => s.clone(),
            None => StringSet::new(),
        };
        dst.insert(member.to_owned());
        self.sets.insert(key2.to_owned(), dst);
        proof {
            assert(self.set_records() =~~= old(self).set_records()
                .insert(key1@, set_at(old(self).set_records(), key1@).remove(member@))
                .insert(key2@, set_at(old(self).set_records(), key2@).insert(member@)));
        }
        true
    }

    /// The union of the sets under `keys`, as a fresh set record.
    fn fold_union(&self, keys: &[&str]) -> (r: StringSet)
        requires
            self.wf(),
        ensures
            r.wf(),
            r@ == spec_union_of(self.set_records(), keys.deep_view()),
    {
        let mut acc = StringSet::new();
        let n = keys.len();
        let mut i: usize = 0;
        while i < n
            invariant
                self.wf(),
                acc.wf(),
                n == keys@.len(),
                0 <= i <= n,
                acc@ == spec_union_of(self.set_records(), keys.deep_view().subrange(0, i as int)),
            decreases n - i,
        {
            proof {
                assert(keys.deep_view().subrange(0, i as int + 1).drop_last()
                    =~= keys.deep_view().subrange(0, i as int));
            }
            match self.sets.get(keys[i]) {
                Some(s) => {
                    acc.union_with(s);
                },
                None => {
                    proof {
                        assert(acc@.union(Set::<Seq<char>>::empty()) =~= acc@);
                    }
                },
            }
            i += 1;
        }
        proof {
            assert(keys.deep_view().subrange(0, n as int) =~= keys.deep_view());
        }
        acc
    }

    /// The union of the sets under `keys`, as members.
    pub fn set_union(&self, keys: &[&str]) -> (r: Vec<String>)
        requires
            self.wf(),
        ensures
            r.deep_view().no_duplicates(),
            r.deep_view().to_set() == spec_union_of(self.set_records(), keys.deep_view()),
    {
        let acc = self.fold_union(keys);
        acc.members()
    }

    /// The intersection of the sets under `keys`, as a fresh set record.
    fn fold_inter(&self, keys: &[&str]) -> (r: StringSet)
        requires
            self.wf(),
        ensures
            r.wf(),
            r@ == spec_inter_of(self.set_records(), keys.deep_view()),
    {
        let n = keys.len();
        if n == 0 {
            return StringSet::new();
        }
        let mut acc = match self.sets.get(keys[0]) {
            Some(s) => s.clone(),
            None => StringSet::new(),
        };
        proof {
            assert(keys.deep_view().subrange(0, 1).len() == 1);
            assert(keys.deep_view().subrange(0, 1)[0] == keys.deep_view()[0]);
            assert(acc@ == spec_inter_of(self.set_records(), keys.deep_view().subrange(0, 1)));
        }
        let mut i: usize = 1;
        while i < n
            invariant
                self.wf(),
                acc.wf(),
                n == keys@.len(),
                1 <= i <= n,
                acc@ == spec_inter_of(self.set_records(), keys.deep_view().subrange(0, i as int)),
            decreases n - i,
        {
            proof {
                assert(keys.deep_view().subrange(0, i as int + 1).drop_last()
                    =~= keys.deep_view().subrange(0, i as int));
                assert(keys.deep_view().subrange(0, i as int + 1).len() == i + 1);
            }
            match self.sets.get(keys[i]) {
                Some(s) => {
                    acc.intersect(s);
                },
                None => {
                    let empty = StringSet::new();
                    acc.intersect(&empty);
                },
            }
            i += 1;
        }
        proof {
            assert(keys.deep_view().subrange(0, n as int) =~= keys.deep_view());
        }
        acc
    }

    /// The intersection of the sets under `keys`, as members.
    pub fn set_inter(&self, keys: &[&str]) -> (r: Vec<String>)
        requires
            self.wf(),
        ensures
            r.deep_view().no_duplicates(),
            r.deep_view().to_set() == spec_inter_of(self.set_records(), keys.deep_view()),
    {
        let acc = self.fold_inter(keys);
        acc.members()
    }

    /// The members of the first set under `keys` that none of the other
    /// sets has, as a fresh set record.
    fn fold_diff(&self, keys: &[&str]) -> (r: StringSet)
        requires
            self.wf(),
        ensures
            r.wf(),
            r@ == spec_diff_of(self.set_records(), keys.deep_view()),
    {
        let n = keys.len();
        if n == 0 {
            return StringSet::new();
        }
        let mut acc = match self.sets.get(keys[0]) {
            Some(s) => s.clone(),
            None => StringSet::new(),
        };
        let rest = self.fold_union_from(keys, 1);
        acc.subtract(&rest);
        proof {
            assert(acc@ =~= spec_diff_of(self.set_records(), keys.deep_view()));
        }
        acc
    }

    /// The union of the sets under `keys[from..]`.
    fn fold_union_from(&self, keys: &[&str], from: usize) -> (r: StringSet)
        requires
            self.wf(),
            from <= keys@.len(),
        ensures
            r.wf(),
            r@ == spec_union_of(
                self.set_records(),
                keys.deep_view().subrange(from as int, keys.deep_view().len() as int),
            ),
    {
        let mut acc = StringSet::new();
        let n = keys.len();
        let mut i: usize = from;
        while i < n
            invariant
                self.wf(),
                acc.wf(),
                n == keys@.len(),
                from <= i <= n,
                acc@ == spec_union_of(
                    self.set_records(), keys.deep_view().subrange(from as int, i as int)),
            decreases n - i,
        {
            proof {
                assert(keys.deep_view().subrange(from as int, i as int + 1).drop_last()
                    =~= keys.deep_view().subrange(from as int, i as int));
                assert(keys.deep_view().subrange(from as int, i as int + 1).last()
                    == keys.deep_view()[i as int]);
            }
            match self.sets.get(keys[i]) {
                Some(s) => {
                    acc.union_with(s);
                },
                None => {
                    proof {
                        assert(acc@.union(Set::<Seq<char>>::empty()) =~= acc@);
                    }
                },
            }
            i += 1;
        }
        acc
    }

    /// The difference of the sets under `keys`, as members.
    pub fn set_diff(&self, keys: &[&str]) -> (r: Vec<String>)
        requires
            self.wf(),
        ensures
            r.deep_view().no_duplicates(),
            r.deep_view().to_set() == spec_diff_of(self.set_records(), keys.deep_view()),
    {
        let acc = self.fold_diff(keys);
        acc.members()
    }

    /// Stores the union of the sets under `keys` under `dest`, overwriting
    /// it, and reports the stored cardinality.
    pub fn set_unionstore(&mut self, dest: &str, keys: &[&str]) -> (r: usize)
        requires
            old(self).wf(),
        ensures
            final(self).wf(),
            final(self).set_records() == old(self).set_records().insert(
                dest@, spec_union_of(old(self).set_records(), keys.deep_view())),
            r == spec_union_of(old(self).set_records(), keys.deep_view()).len(),
    {
        let acc = self.fold_union(keys);
        let card = acc.len();
        self.sets.insert(dest.to_owned(), acc);
        proof {
            assert(self.set_records() =~= old(self).set_records().insert(
                dest@, spec_union_of(old(self).set_records(), keys.deep_view())));
        }
        card
    }

    /// Stores the intersection of the sets under `keys` under `dest`,
    /// overwriting it, and reports the stored cardinality.
    pub fn set_interstore(&mut self, dest: &str, keys: &[&str]) -> (r: usize)
        requires
            old(self).wf(),
        ensures
            final(self).wf(),
            final(self).set_records() == old(self).set_records().insert(
                dest@, spec_inter_of(old(self).set_records(), keys.deep_view())),
            r == spec_inter_of(old(self).set_records(), keys.deep_view()).len(),
    {
        let acc = self.fold_inter(keys);
        let card = acc.len();
        self.sets.insert(dest.to_owned(), acc);
        proof {
            assert(self.set_records() =~= old(self).set_records().insert(
                dest@, spec_inter_of(old(self).set_records(), keys.deep_view())));
        }
        card
    }

    /// Stores the difference of the sets under `keys` under `dest`,
    /// overwriting it, and reports the stored cardinality.
    pub fn set_diffstore(&mut self, dest: &str, keys: &[&str]) -> (r: usize)
        requires
            old(self).wf(),
        ensures
            final(self).wf(),
            final(self).set_records() == old(self).set_records().insert(
                dest@, spec_diff_of(old(self).set_records(), keys.deep_view())),
            r == spec_diff_of(old(self).set_records(), keys.deep_view()).len(),
    {
        let acc = self.fold_diff(keys);
        let card = acc.len();
        self.sets.insert(dest.to_owned(), acc);
        proof {
            assert(self.set_records() =~= old(self).set_records().insert(
                dest@, spec_diff_of(old(self).set_records(), keys.deep_view())));
        }
        card
    }
}

/// The sequential core of the in-process engine: the three independent
/// stores side by side, with exact contracts over their models and with
/// the guarantee that an operation on one store leaves the others as they
/// are. The shared `MemoryCache` handle runs the same store operations,
/// each behind its own lock.
pub struct Inner {
    obj_cache: ObjStore,
    hashsets: HashStore,
    sets: SetStore,
}

impl Inner {
    /// Internal well-formedness of the three stores.
    pub closed spec fn wf(&self) -> bool {
        self.obj_cache.wf() && self.hashsets.wf() && self.sets.wf()
    }

    /// The object store: composite key to stored entry.
    pub closed spec fn objs(&self) -> Map<Seq<char>, EntryModel> {
        self.obj_cache.objs()
    }

    /// The hash-record store: key to field dictionary.
    pub closed spec fn hashes(&self) -> Map<Seq<char>, Map<Seq<char>, Seq<char>>> {
        self.hashsets.hashes()
    }

    /// The set store: key to member set.
    pub closed spec fn set_records(&self) -> Map<Seq<char>, Set<Seq<char>>> {
        self.sets.set_records()
    }

    /// An engine with nothing stored.
    pub fn new() -> (r: Inner)
        ensures
            r.wf(),
            r.objs() == Map::<Seq<char>, EntryModel>::empty(),
            r.hashes() == Map::<Seq<char>, Map<Seq<char>, Seq<char>>>::empty(),
            r.set_records() == Map::<Seq<char>, Set<Seq<char>>>::empty(),
    {
        Inner { obj_cache: ObjStore::new(), hashsets: HashStore::new(), sets: SetStore::new() }
    }

    /// Stores a record under a composite key, overwriting unconditionally.
    pub fn obj_insert(&mut self, key: String, record: FieldMap, exp: Option<Expiration>)
        requires
            old(self).wf(),
            record.wf(),
        ensures
            final(self).wf(),
            final(self).objs() == old(self).objs().insert(key@, EntryModel {
                record: record@,
                expires_at: match exp {
                    Some(e) => Some(e.spec_expires_at()),
                    None => None,
                },
            }),
            final(self).hashes() == old(self).hashes(),
            final(self).set_records() == old(self).set_records(),
    {
        self.obj_cache.obj_insert(key, record, exp)
    }

    /// Reads the record under a composite key at time `now`: an absent key
    /// reads as nothing; an expired entry is deleted and reads as nothing.
    pub fn obj_get_at(&mut self, key: &str, now: u64) -> (r: Option<FieldMap>)
        requires
            old(self).wf(),
        ensures
            final(self).wf(),
            final(self).objs() == spec_obj_purge(old(self).objs(), key@, now as int),
            final(self).hashes() == old(self).hashes(),
            final(self).set_records() == old(self).set_records(),
            match r {
                Some(rec) => rec.wf()
                    && spec_obj_lookup(old(self).objs(), key@, now as int) == Some(rec@),
                None => spec_obj_lookup(old(self).objs(), key@, now as int) is None,
            },
    {
        self.obj_cache.obj_get_at(key, now)
    }

    /// Whether a composite key is present, expired or not: presence alone,
    /// with no expiration cleanup.
    pub fn obj_contains(&self, key: &str) -> (r: bool)
        ensures
            r == self.objs().contains_key(key@),
    {
        self.obj_cache.obj_contains(key)
    }

    /// Deletes a composite key; deleting an absent key changes nothing.
    pub fn obj_remove(&mut self, key: &str)
        requires
            old(self).wf(),
        ensures
            final(self).wf(),
            final(self).objs() == old(self).objs().remove(key@),
            final(self).hashes() == old(self).hashes(),
            final(self).set_records() == old(self).set_records(),
    {
        self.obj_cache.obj_remove(key)
    }

    /// Auto-creates the backing dictionary for a hash key.
    pub fn ensure_hash_exists(&mut self, key: &str) -> (r: Result<(), crate::CacheError>)
        requires
            old(self).wf(),
        ensures
            final(self).wf(),
            final(self).hashes() == old(self).hashes().insert(
                key@, hash_at(old(self).hashes(), key@)),
            final(self).objs() == old(self).objs(),
            final(self).set_records() == old(self).set_records(),
            r is Ok,
    {
        self.hashsets.ensure_hash_exists(key)
    }

    /// Sets one field of a hash record, creating the record if absent.
    pub fn hash_set(&mut self, key: &str, field: String, value: String)
        requires
            old(self).wf(),
        ensures
            final(self).wf(),
            final(self).hashes() == old(self).hashes().insert(
                key@, hash_at(old(self).hashes(), key@).insert(field@, value@)),
            final(self).objs() == old(self).objs(),
            final(self).set_records() == old(self).set_records(),
    {
        self.hashsets.hash_set(key, field, value)
    }

    /// Sets several fields of a hash record in order, creating the record
    /// if absent.
    pub fn hash_multiple_set(&mut self, key: &str, pairs: &Vec<(String, String)>)
        requires
            old(self).wf(),
        ensures
            final(self).wf(),
            final(self).hashes() == old(self).hashes().insert(
                key@,
                spec_set_fields(hash_at(old(self).hashes(), key@), pairs.deep_view()),
            ),
            final(self).objs() == old(self).objs(),
            final(self).set_records() == old(self).set_records(),
    {
        self.hashsets.hash_multiple_set(key, pairs)
    }

    /// Reads one field of a hash record; an absent key or field reads as
    /// nothing.
    pub fn hash_get(&self, key: &str, field: &str) -> (r: Option<String>)
        requires
            self.wf(),
        ensures
            match r {
                Some(v) => hash_at(self.hashes(), key@).contains_key(field@)
                    && v@ == hash_at(self.hashes(), key@)[field@],
                None => !hash_at(self.hashes(), key@).contains_key(field@),
            },
    {
        self.hashsets.hash_get(key, field)
    }

    /// Whether a field of a hash record is present; an absent key has no
    /// fields.
    pub fn hash_exists(&self, key: &str, field: &str) -> (r: bool)
        requires
            self.wf(),
        ensures
            r == hash_at(self.hashes(), key@).contains_key(field@),
    {
        self.hashsets.hash_exists(key, field)
    }

    /// Deletes fields of a hash record, each idempotently; an absent key
    /// changes nothing.
    pub fn hash_delete(&mut self, key: &str, fields: &[&str])
        requires
            old(self).wf(),
        ensures
            final(self).wf(),
            final(self).hashes() == spec_delete_fields(
                old(self).hashes(), key@, fields.deep_view()),
            final(self).objs() == old(self).objs(),
            final(self).set_records() == old(self).set_records(),
    {
        self.hashsets.hash_delete(key, fields)
    }

    /// The field names of a hash record, in some order, without
    /// duplicates; an absent key has none.
    pub fn hash_keys(&self, key: &str) -> (r: Vec<String>)
        requires
            self.wf(),
        ensures
            r.deep_view().no_duplicates(),
            r.deep_view().to_set() == hash_at(self.hashes(), key@).dom(),
    {
        self.hashsets.hash_keys(key)
    }

    /// The values of a hash record, in some order, one per field; an
    /// absent key has none.
    pub fn hash_values(&self, key: &str) -> (r: Vec<String>)
        requires
            self.wf(),
        ensures
            exists|fs: Seq<Seq<char>>|
                {
                    &&& fs.no_duplicates()
                    &&& fs.to_set() == hash_at(self.hashes(), key@).dom()
                    &&& r.deep_view().len() == fs.len()
                    &&& forall|i: int| 0 <= i < fs.len()
                        ==> r.deep_view()[i] == hash_at(self.hashes(), key@)[#[trigger] fs[i]]
                },
    {
        self.hashsets.hash_values(key)
    }

    /// The number of fields of a hash record; an absent key has zero.
    pub fn hash_len(&self, key: &str) -> (r: usize)
        requires
            self.wf(),
        ensures
            r == hash_at(self.hashes(), key@).dom().len(),
    {
        self.hashsets.hash_len(key)
    }

    /// Reads several fields of a hash record: one optional value per asked
    /// field when the key is present, and nothing at all when it is absent.
    pub fn hash_multiple_get(&self, key: &str, fields: &[&str]) -> (r: Vec<Option<String>>)
        requires
            self.wf(),
        ensures
            spec_multi_get_outcome(self.hashes(), key@, fields.deep_view(), r@),
    {
        self.hashsets.hash_multiple_get(key, fields)
    }

    /// Sets a field of a hash record only when absent, creating the record
    /// if need be; reports whether the field was written.
    pub fn hash_set_if_not_exists(&mut self, key: &str, field: String, value: String) -> (r: bool)
        requires
            old(self).wf(),
        ensures
            final(self).wf(),
            r == !hash_at(old(self).hashes(), key@).contains_key(field@),
            r ==> final(self).hashes() == old(self).hashes().insert(
                key@, hash_at(old(self).hashes(), key@).insert(field@, value@)),
            !r ==> final(self).hashes() == old(self).hashes().insert(
                key@, hash_at(old(self).hashes(), key@)),
            final(self).objs() == old(self).objs(),
            final(self).set_records() == old(self).set_records(),
    {
        self.hashsets.hash_set_if_not_exists(key, field, value)
    }

    /// Auto-creates the backing set for a set key.
    pub fn ensure_set_exists(&mut self, key: &str) -> (r: Result<(), crate::CacheError>)
        requires
            old(self).wf(),
        ensures
            final(self).wf(),
            final(self).set_records() == old(self).set_records().insert(
                key@, set_at(old(self).set_records(), key@)),
            final(self).objs() == old(self).objs(),
            final(self).hashes() == old(self).hashes(),
            r is Ok,
    {
        self.sets.ensure_set_exists(key)
    }

    /// Whether a set key has a backing set.
    pub fn set_exists(&self, key: &str) -> (r: bool)
        ensures
            r == self.set_records().contains_key(key@),
    {
        self.sets.set_exists(key)
    }

    /// Adds members to the set under a key, creating the set if absent.
    pub fn set_add(&mut self, key: &str, members: &Vec<String>)
        requires
            old(self).wf(),
        ensures
            final(self).wf(),
            final(self).set_records() == old(self).set_records().insert(
                key@,
                set_at(old(self).set_records(), key@).union(members.deep_view().to_set()),
            ),
            final(self).objs() == old(self).objs(),
            final(self).hashes() == old(self).hashes(),
    {
        self.sets.set_add(key, members)
    }

    /// Removes a member from the set under a key; an absent key or member
    /// changes nothing. Reports whether the member was there.
    pub fn set_rem(&mut self, key: &str, member: &str) -> (r: bool)
        requires
            old(self).wf(),
        ensures
            final(self).wf(),
            final(self).set_records() == if old(self).set_records().contains_key(key@) {
                old(self).set_records().insert(
                    key@, old(self).set_records()[key@].remove(member@))
            } else {
                old(self).set_records()
            },
            r == set_at(old(self).set_records(), key@).contains(member@),
            final(self).objs() == old(self).objs(),
            final(self).hashes() == old(self).hashes(),
    {
        self.sets.set_rem(key, member)
    }

    /// The cardinality of the set under a key; an absent key has zero.
    pub fn set_card(&self, key: &str) -> (r: usize)
        requires
            self.wf(),
        ensures
            r == set_at(self.set_records(), key@).len(),
    {
        self.sets.set_card(key)
    }

    /// Whether a member is in the set under a key; nothing is a member of
    /// an absent set.
    pub fn set_ismember(&self, key: &str, member: &str) -> (r: bool)
        requires
            self.wf(),
        ensures
            r == set_at(self.set_records(), key@).contains(member@),
    {
        self.sets.set_ismember(key, member)
    }

    /// The members of the set under a key, in some order, without
    /// duplicates; an absent key has none.
    pub fn set_members(&self, key: &str) -> (r: Vec<String>)
        requires
            self.wf(),
        ensures
            r.deep_view().no_duplicates(),
            r.deep_view().to_set() == set_at(self.set_records(), key@),
    {
        self.sets.set_members(key)
    }

    /// Moves a member from one set to another: when present in the source
    /// it leaves the source and joins the destination; otherwise nothing
    /// changes. Reports whether it moved.
    pub fn set_move(&mut self, key1: &str, key2: &str, member: &str) -> (r: bool)
        requires
            old(self).wf(),
        ensures
            final(self).wf(),
            r == set_at(old(self).set_records(), key1@).contains(member@),
            r ==> final(self).set_records() == old(self).set_records()
                .insert(key1@, set_at(old(self).set_records(), key1@).remove(member@))
                .insert(key2@, set_at(old(self).set_records(), key2@).insert(member@)),
            !r ==> final(self).set_records() == old(self).set_records(),
            final(self).objs() == old(self).objs(),
            final(self).hashes() == old(self).hashes(),
    {
        self.sets.set_move(key1, key2, member)
    }

    /// The union of the sets under `keys`, as members.
    pub fn set_union(&self, keys: &[&str]) -> (r: Vec<String>)
        requires
            self.wf(),
        ensures
            r.deep_view().no_duplicates(),
            r.deep_view().to_set() == spec_union_of(self.set_records(), keys.deep_view()),
    {
        self.sets.set_union(keys)
    }

    /// The intersection of the sets under `keys`, as members.
    pub fn set_inter(&self, keys: &[&str]) -> (r: Vec<String>)
        requires
            self.wf(),
        ensures
            r.deep_view().no_duplicates(),
            r.deep_view().to_set() == spec_inter_of(self.set_records(), keys.deep_view()),
    {
        self.sets.set_inter(keys)
    }

    /// The difference of the sets under `keys`, as members.
    pub fn set_diff(&self, keys: &[&str]) -> (r: Vec<String>)
        requires
            self.wf(),
        ensures
            r.deep_view().no_duplicates(),
            r.deep_view().to_set() == spec_diff_of(self.set_records(), keys.deep_view()),
    {
        self.sets.set_diff(keys)
    }

    /// Stores the union of the sets under `keys` under `dest`, overwriting
    /// it, and reports the stored cardinality.
    pub fn set_unionstore(&mut self, dest: &str, keys: &[&str]) -> (r: usize)
        requires
            old(self).wf(),
        ensures
            final(self).wf(),
            final(self).set_records() == old(self).set_records().insert(
                dest@, spec_union_of(old(self).set_records(), keys.deep_view())),
            r == spec_union_of(old(self).set_records(), keys.deep_view()).len(),
            final(self).objs() == old(self).objs(),
            final(self).hashes() == old(self).hashes(),
    {
        self.sets.set_unionstore(dest, keys)
    }

    /// Stores the intersection of the sets under `keys` under `dest`,
    /// overwriting it, and reports the stored cardinality.
    pub fn set_interstore(&mut self, dest: &str, keys: &[&str]) -> (r: usize)
        requires
            old(self).wf(),
        ensures
            final(self).wf(),
            final(self).set_records() == old(self).set_records().insert(
                dest@, spec_inter_of(old(self).set_records(), keys.deep_view())),
            r == spec_inter_of(old(self).set_records(), keys.deep_view()).len(),
            final(self).objs() == old(self).objs(),
            final(self).hashes() == old(self).hashes(),
    {
        self.sets.set_interstore(dest, keys)
    }

    /// Stores the difference of the sets under `keys` under `dest`,
    /// overwriting it, and reports the stored cardinality.
    pub fn set_diffstore(&mut self, dest: &str, keys: &[&str]) -> (r: usize)
        requires
            old(self).wf(),
        ensures
            final(self).wf(),
            final(self).set_records() == old(self).set_records().insert(
                dest@, spec_diff_of(old(self).set_records(), keys.deep_view())),
            r == spec_diff_of(old(self).set_records(), keys.deep_view()).len(),
            final(self).objs() == old(self).objs(),
            final(self).hashes() == old(self).hashes(),
    {
        self.sets.set_diffstore(dest, keys)
    }
}

/// The lock invariant of each shared store: what is inside is well-formed.
pub struct StoreInv;

impl RwLockPredicate<ObjStore> for StoreInv {
    open spec fn inv(self, v: ObjStore) -> bool {
        v.wf()
    }
}

impl RwLockPredicate<HashStore> for StoreInv {
    open spec fn inv(self, v: HashStore) -> bool {
        v.wf()
    }
}

impl RwLockPredicate<SetStore> for StoreInv {
    open spec fn inv(self, v: SetStore) -> bool {
        v.wf()
    }
}

/// Relies on std::sync::Arc::clone: the clone points at the same shared
/// value; nothing is copied.
#[verifier::external_body]
fn arc_clone<T>(a: &Arc<T>) -> (r: Arc<T>)
    ensures
        r == *a,
{
    a.clone()
}

/// Relies on std::sync::Arc's Deref: borrowing through the handle reaches
/// the shared value itself.
#[verifier::external_body]
fn arc_borrow<T>(a: &Arc<T>) -> (r: &T)
    ensures
        *r == **a,
{
    &**a
}

/// The in-process engine handle: shared, cheaply cloneable, safe under
/// concurrent callers. Clones share one engine. Each of the three stores
/// sits behind its own reader/writer lock, so operations on different
/// stores do not serialize against each other, reads proceed concurrently,
/// and writes are exclusive; each lock's invariant keeps its store
/// well-formed. The exact sequential semantics of every operation is
/// stated on the store types; each handle method reports which results it
/// can return, over some locked snapshot of the shared state.
pub struct MemoryCache {
    obj_cache: Arc<RwLock<ObjStore, StoreInv>>,
    hashsets: Arc<RwLock<HashStore, StoreInv>>,
    sets: Arc<RwLock<SetStore, StoreInv>>,
}

impl Clone for MemoryCache {
    /// A clone shares the engine rather than copying any stored data.
    fn clone(&self) -> (r: Self)
        ensures
            r == *self,
    {
        MemoryCache {
            obj_cache: arc_clone(&self.obj_cache),
            hashsets: arc_clone(&self.hashsets),
            sets: arc_clone(&self.sets),
        }
    }
}

/// Renders caller-supplied values to the strings the stores hold.
fn to_string_vec<V: ToCacheString>(members: &[V]) -> (r: Vec<String>)
    ensures
        r.deep_view() == members@.map_values(|v: V| v.spec_string()),
{
    let n = members.len();
    let mut r: Vec<String> = Vec::new();
    let mut i: usize = 0;
    while i < n
        invariant
            n == members@.len(),
            0 <= i <= n,
            r@.len() == i,
            forall|j: int| 0 <= j < i ==> (#[trigger] r@[j])@ == members@[j].spec_string(),
        decreases n - i,
    {
        r.push(members[i].to_cache_string());
        i += 1;
    }
    proof {
        assert(r.deep_view() =~= members@.map_values(|v: V| v.spec_string()));
    }
    r
}

/// Renders caller-supplied (field, value) pairs to owned string pairs.
fn to_pair_vec<V: ToCacheString>(fv_pairs: &[(&str, V)]) -> (r: Vec<(String, String)>)
    ensures
        r.deep_view() == fv_pairs@.map_values(|p: (&str, V)| (p.0@, p.1.spec_string())),
{
    let n = fv_pairs.len();
    let mut r: Vec<(String, String)> = Vec::new();
    let mut i: usize = 0;
    while i < n
        invariant
            n == fv_pairs@.len(),
            0 <= i <= n,
            r@.len() == i,
            forall|j: int| 0 <= j < i ==> (#[trigger] r@[j]).0@ == fv_pairs@[j].0@
                && r@[j].1@ == fv_pairs@[j].1.spec_string(),
        decreases n - i,
    {
        r.push((fv_pairs[i].0.to_owned(), fv_pairs[i].1.to_cache_string()));
        i += 1;
    }
    proof {
        assert(r.deep_view() =~= fv_pairs@.map_values(|p: (&str, V)| (p.0@, p.1.spec_string())));
    }
    r
}

impl MemoryCache {
    /// A fresh engine with nothing stored.
    pub fn new() -> MemoryCache {
        MemoryCache {
            obj_cache: Arc::new(RwLock::new(ObjStore::new(), Ghost(StoreInv))),
            hashsets: Arc::new(RwLock::new(HashStore::new(), Ghost(StoreInv))),
            sets: Arc::new(RwLock::new(SetStore::new(), Ghost(StoreInv))),
        }
    }

    /// Stores `obj` under its composite key, overwriting unconditionally;
    /// the expiration comes from the object's own accessor. Never fails.
    pub fn insert<K: ToCacheString, O: Cacheable>(&self, key: K, obj: O) -> (r: Result<
        (),
        CacheError,
    >)
        ensures
            r is Ok,
    {
        let ttl = obj.expires_after();
        self.insert_with(key, obj, ttl)
    }

    /// Stores `obj` under its composite key, overwriting unconditionally.
    /// The expiration comes from the explicit argument when present, and
    /// from the object's own accessor otherwise. Never fails.
    pub fn insert_with<K: ToCacheString, O: Cacheable>(
        &self,
        key: K,
        obj: O,
        expires_after: Option<usize>,
    ) -> (r: Result<(), CacheError>)
        ensures
            r is Ok,
    {
        let tkey = gen_key::<K, O>(key);
        let ttl = crate::effective_ttl(expires_after, obj.expires_after());
        let record = obj.to_redis_obj();
        let exp = match ttl {
            Some(t) => Some(Expiration::new(t)),
            None => None,
        };
        let lock = arc_borrow(&self.obj_cache);
        let (mut inr, handle) = lock.acquire_write();
        inr.obj_insert(tkey, record, exp);
        handle.release_write(inr);
        Ok(())
    }

    /// Loads the object stored under the composite key of `key` and `O`:
    /// an absent key reads as `None`; an expired entry is deleted and
    /// reads as `None`; a record that no longer reads back as an `O` is a
    /// broken key-addressing invariant and fails fast with an access
    /// error.
    pub fn get<K: ToCacheString, O: Cacheable>(&self, key: K) -> (r: Result<Option<O>, CacheError>)
        ensures
            match r {
                Ok(Some(v)) => exists|objs: Map<Seq<char>, EntryModel>, now: int|
                    {
                        &&& #[trigger] spec_obj_lookup(
                            objs,
                            spec_composite_key(O::spec_model_name(), key.spec_string()),
                            now,
                        ) matches Some(rec)
                        &&& O::spec_parse_record(rec) == Some(v.deep_view())
                    },
                Ok(None) => true,
                Err(e) => e is AccessError,
            },
    {
        let tkey = gen_key::<K, O>(key);
        let now = now_seconds();
        let lock = arc_borrow(&self.obj_cache);
        let (mut inr, handle) = lock.acquire_write();
        let ghost objs = inr.objs();
        let rec_opt = inr.obj_get_at(tkey.as_str(), now);
        handle.release_write(inr);
        match rec_opt {
            None => Ok(None),
            Some(rec) => match O::from_redis_obj(&rec) {
                Ok(v) => {
                    proof {
                        assert(spec_obj_lookup(
                            objs,
                            spec_composite_key(O::spec_model_name(), key.spec_string()),
                            now as int,
                        ) matches Some(r2) && O::spec_parse_record(r2) == Some(v.deep_view()));
                    }
                    Ok(Some(v))
                },
                Err(e) => Err(e),
            },
        }
    }

    /// Whether the composite key of `key` and `O` is present. Presence is
    /// reported as stored, with no expiration check and no cleanup: a
    /// logically expired entry still reports `true` until a `get` purges
    /// it. Never fails.
    pub fn contains_key<K: ToCacheString, O: Cacheable>(&self, key: K) -> (r: Result<
        bool,
        CacheError,
    >)
        ensures
            match r {
                Ok(b) => exists|objs: Map<Seq<char>, EntryModel>|
                    b == #[trigger] objs.contains_key(
                        spec_composite_key(O::spec_model_name(), key.spec_string()),
                    ),
                Err(_) => false,
            },
    {
        let tkey = gen_key::<K, O>(key);
        let lock = arc_borrow(&self.obj_cache);
        let handle = lock.acquire_read();
        let inr = handle.borrow();
        let b = inr.obj_contains(tkey.as_str());
        let ghost objs = inr.objs();
        handle.release_read();
        proof {
            assert(b == objs.contains_key(
                spec_composite_key(O::spec_model_name(), key.spec_string())));
        }
        Ok(b)
    }

    /// Deletes the composite key of `key` and `O`; removing an absent key
    /// is a success no-op. Never fails.
    pub fn remove<K: ToCacheString, O: Cacheable>(&self, key: K) -> (r: Result<(), CacheError>)
        ensures
            r is Ok,
    {
        let tkey = gen_key::<K, O>(key);
        let lock = arc_borrow(&self.obj_cache);
        let (mut inr, handle) = lock.acquire_write();
        inr.obj_remove(tkey.as_str());
        handle.release_write(inr);
        Ok(())
    }

    /// Deletes fields of a hash record, each idempotently. Never fails.
    pub fn hash_delete(&self, key: &str, fields: &[&str]) -> (r: Result<bool, CacheError>)
        ensures
            r == Ok::<bool, CacheError>(true),
    {
        let lock = arc_borrow(&self.hashsets);
        let (mut inr, handle) = lock.acquire_write();
        inr.hash_delete(key, fields);
        handle.release_write(inr);
        Ok(true)
    }

    /// Whether a field of a hash record is present; an absent key has no
    /// fields. Never fails.
    pub fn hash_exists(&self, key: &str, field: &str) -> (r: Result<bool, CacheError>)
        ensures
            match r {
                Ok(b) => exists|h: Map<Seq<char>, Map<Seq<char>, Seq<char>>>|
                    b == hash_at(h, key@).contains_key(field@),
                Err(_) => false,
            },
    {
        let lock = arc_borrow(&self.hashsets);
        let handle = lock.acquire_read();
        let inr = handle.borrow();
        let b = inr.hash_exists(key, field);
        let ghost h = inr.hashes();
        handle.release_read();
        proof {
            assert(b == hash_at(h, key@).contains_key(field@));
        }
        Ok(b)
    }

    /// Reads one field of a hash record and parses it as a `T`: an absent
    /// key or field reads as `None`; a stored value that does not parse is
    /// an error.
    pub fn hash_get<T: FromCacheString>(&self, key: &str, field: &str) -> (r: Result<
        Option<T>,
        CacheError,
    >)
        ensures
            match r {
                Ok(opt) => exists|h: Map<Seq<char>, Map<Seq<char>, Seq<char>>>|
                    match opt {
                        Some(v) => hash_at(h, key@).contains_key(field@)
                            && T::spec_parses(hash_at(h, key@)[field@], v),
                        None => !hash_at(h, key@).contains_key(field@),
                    },
                Err(e) => e is Other && exists|h: Map<Seq<char>, Map<Seq<char>, Seq<char>>>|
                    hash_at(h, key@).contains_key(field@)
                        && T::spec_parse_fails(hash_at(h, key@)[field@]),
            },
    {
        let lock = arc_borrow(&self.hashsets);
        let handle = lock.acquire_read();
        let inr = handle.borrow();
        let stored = inr.hash_get(key, field);
        let ghost h = inr.hashes();
        handle.release_read();
        match stored {
            None => Ok(None),
            Some(s) => match T::from_cache_string(s.as_str()) {
                Some(v) => Ok(Some(v)),
                None => Err(CacheError::Other(
                    String::from_str("Unable to parse value into desired type"),
                )),
            },
        }
    }

    /// Loads a whole hash record at `key` as an `O`, through the typed
    /// store.
    pub fn hash_get_all<O: Cacheable>(&self, key: &str) -> (r: Result<Option<O>, CacheError>)
        ensures
            match r {
                Ok(Some(v)) => exists|objs: Map<Seq<char>, EntryModel>, now: int|
                    {
                        &&& #[trigger] spec_obj_lookup(
                            objs,
                            spec_composite_key(O::spec_model_name(), key@),
                            now,
                        ) matches Some(rec)
                        &&& O::spec_parse_record(rec) == Some(v.deep_view())
                    },
                Ok(None) => true,
                Err(e) => e is AccessError,
            },
    {
        self.get::<&str, O>(key)
    }

    /// The field names of a hash record, in some order, without
    /// duplicates; an absent key has none. Never fails.
    pub fn hash_keys(&self, key: &str) -> (r: Result<Vec<String>, CacheError>)
        ensures
            match r {
                Ok(ks) => ks.deep_view().no_duplicates()
                    && exists|h: Map<Seq<char>, Map<Seq<char>, Seq<char>>>|
                        ks.deep_view().to_set() == hash_at(h, key@).dom(),
                Err(_) => false,
            },
    {
        let lock = arc_borrow(&self.hashsets);
        let handle = lock.acquire_read();
        let inr = handle.borrow();
        let ks = inr.hash_keys(key);
        let ghost h = inr.hashes();
        handle.release_read();
        proof {
            assert(ks.deep_view().to_set() == hash_at(h, key@).dom());
        }
        Ok(ks)
    }

    /// The number of fields of a hash record; an absent key has zero.
    /// Never fails.
    pub fn hash_len(&self, key: &str) -> (r: Result<usize, CacheError>)
        ensures
            match r {
                Ok(n) => exists|h: Map<Seq<char>, Map<Seq<char>, Seq<char>>>|
                    n == hash_at(h, key@).dom().len(),
                Err(_) => false,
            },
    {
        let lock = arc_borrow(&self.hashsets);
        let handle = lock.acquire_read();
        let inr = handle.borrow();
        let n = inr.hash_len(key);
        let ghost h = inr.hashes();
        handle.release_read();
        proof {
            assert(n == hash_at(h, key@).dom().len());
        }
        Ok(n)
    }

    /// Reads several fields of a hash record: one optional value per asked
    /// field when the key is present, and an empty list when it is absent.
    /// Never fails.
    pub fn hash_multiple_get(&self, key: &str, fields: &[&str]) -> (r: Result<
        Vec<Option<String>>,
        CacheError,
    >)
        ensures
            match r {
                Ok(vs) => exists|h: Map<Seq<char>, Map<Seq<char>, Seq<char>>>|
                    spec_multi_get_outcome(h, key@, fields.deep_view(), vs@),
                Err(_) => false,
            },
    {
        let lock = arc_borrow(&self.hashsets);
        let handle = lock.acquire_read();
        let inr = handle.borrow();
        let vs = inr.hash_multiple_get(key, fields);
        let ghost h = inr.hashes();
        handle.release_read();
        let res: Result<Vec<Option<String>>, CacheError> = Ok(vs);
        proof {
            let vs2 = res->Ok_0;
            assert(spec_multi_get_outcome(h, key@, fields.deep_view(), vs2@));
        }
        res
    }

    /// Sets several fields of a hash record in order, creating the record
    /// if absent. Never fails.
    pub fn hash_multiple_set<V: ToCacheString>(&self, key: &str, fv_pairs: &[(&str, V)]) -> (r:
        Result<bool, CacheError>)
        ensures
            r == Ok::<bool, CacheError>(true),
    {
        let pairs = to_pair_vec(fv_pairs);
        let lock = arc_borrow(&self.hashsets);
        let (mut inr, handle) = lock.acquire_write();
        inr.hash_multiple_set(key, &pairs);
        handle.release_write(inr);
        Ok(true)
    }

    /// Sets one field of a hash record, creating the record if absent.
    /// Never fails.
    pub fn hash_set<V: ToCacheString>(&self, key: &str, field: &str, value: V) -> (r: Result<
        bool,
        CacheError,
    >)
        ensures
            r == Ok::<bool, CacheError>(true),
    {
        let vs = value.to_cache_string();
        let lock = arc_borrow(&self.hashsets);
        let (mut inr, handle) = lock.acquire_write();
        inr.hash_set(key, field.to_owned(), vs);
        handle.release_write(inr);
        Ok(true)
    }

    /// Stores a whole object as the hash record at `key`, through the
    /// typed store. Never fails.
    pub fn hash_set_all<O: Cacheable>(&self, key: &str, cacheable: O) -> (r: Result<
        bool,
        CacheError,
    >)
        ensures
            r is Ok,
    {
        match self.insert(key, cacheable) {
            Ok(_) => Ok(true),
            Err(e) => Err(e),
        }
    }

    /// Sets a field of a hash record only when absent, creating the record
    /// if need be; reports whether the field was written. Never fails.
    pub fn hash_set_if_not_exists<V: ToCacheString>(
        &self,
        key: &str,
        field: &str,
        value: V,
    ) -> (r: Result<bool, CacheError>)
        ensures
            match r {
                Ok(b) => exists|h: Map<Seq<char>, Map<Seq<char>, Seq<char>>>|
                    b == !hash_at(h, key@).contains_key(field@),
                Err(_) => false,
            },
    {
        let vs = value.to_cache_string();
        let lock = arc_borrow(&self.hashsets);
        let (mut inr, handle) = lock.acquire_write();
        let ghost h = inr.hashes();
        let b = inr.hash_set_if_not_exists(key, field.to_owned(), vs);
        handle.release_write(inr);
        proof {
            assert(b == !hash_at(h, key@).contains_key(field@));
        }
        Ok(b)
    }

    /// The values of a hash record, in some order, one per field; an
    /// absent key has none. Never fails.
    pub fn hash_values(&self, key: &str) -> (r: Result<Vec<String>, CacheError>)
        ensures
            r is Ok,
    {
        let lock = arc_borrow(&self.hashsets);
        let handle = lock.acquire_read();
        let inr = handle.borrow();
        let vs = inr.hash_values(key);
        handle.release_read();
        Ok(vs)
    }

    /// Adds members to the set under a key, creating the set if absent.
    /// Never fails.
    pub fn set_add<V: ToCacheString>(&self, key: &str, members: &[V]) -> (r: Result<
        bool,
        CacheError,
    >)
        ensures
            r == Ok::<bool, CacheError>(true),
    {
        let ms = to_string_vec(members);
        let lock = arc_borrow(&self.sets);
        let (mut inr, handle) = lock.acquire_write();
        inr.set_add(key, &ms);
        handle.release_write(inr);
        Ok(true)
    }

    /// The cardinality of the set under a key; an absent key has zero.
    /// Never fails.
    pub fn set_card(&self, key: &str) -> (r: Result<u64, CacheError>)
        ensures
            match r {
                Ok(n) => exists|s: Map<Seq<char>, Set<Seq<char>>>| n == set_at(s, key@).len(),
                Err(_) => false,
            },
    {
        let lock = arc_borrow(&self.sets);
        let handle = lock.acquire_read();
        let inr = handle.borrow();
        let n = inr.set_card(key);
        let ghost s = inr.set_records();
        handle.release_read();
        proof {
            assert(n as u64 == set_at(s, key@).len());
        }
        Ok(n as u64)
    }

    /// The members of the first named set that none of the other named
    /// sets has; an absent set contributes nothing. Never fails.
    pub fn set_diff(&self, keys: &[&str]) -> (r: Result<Vec<String>, CacheError>)
        ensures
            match r {
                Ok(ms) => ms.deep_view().no_duplicates()
                    && exists|s: Map<Seq<char>, Set<Seq<char>>>|
                        ms.deep_view().to_set() == spec_diff_of(s, keys.deep_view()),
                Err(_) => false,
            },
    {
        let lock = arc_borrow(&self.sets);
        let handle = lock.acquire_read();
        let inr = handle.borrow();
        let ms = inr.set_diff(keys);
        let ghost s = inr.set_records();
        handle.release_read();
        proof {
            assert(ms.deep_view().to_set() == spec_diff_of(s, keys.deep_view()));
        }
        Ok(ms)
    }

    /// Stores the difference of the named sets under `diff_name`,
    /// overwriting it, and reports the stored cardinality. Never fails.
    pub fn set_diffstore(&self, diff_name: &str, keys: &[&str]) -> (r: Result<u64, CacheError>)
        ensures
            r is Ok,
    {
        let lock = arc_borrow(&self.sets);
        let (mut inr, handle) = lock.acquire_write();
        let n = inr.set_diffstore(diff_name, keys);
        handle.release_write(inr);
        Ok(n as u64)
    }

    /// The members common to all the named sets; with any absent set the
    /// intersection is empty. Never fails.
    pub fn set_inter(&self, keys: &[&str]) -> (r: Result<Vec<String>, CacheError>)
        ensures
            match r {
                Ok(ms) => ms.deep_view().no_duplicates()
                    && exists|s: Map<Seq<char>, Set<Seq<char>>>|
                        ms.deep_view().to_set() == spec_inter_of(s, keys.deep_view()),
                Err(_) => false,
            },
    {
        let lock = arc_borrow(&self.sets);
        let handle = lock.acquire_read();
        let inr = handle.borrow();
        let ms = inr.set_inter(keys);
        let ghost s = inr.set_records();
        handle.release_read();
        proof {
            assert(ms.deep_view().to_set() == spec_inter_of(s, keys.deep_view()));
        }
        Ok(ms)
    }

    /// Stores the intersection of the named sets under `inter_name`,
    /// overwriting it, and reports the stored cardinality. Never fails.
    pub fn set_interstore(&self, inter_name: &str, keys: &[&str]) -> (r: Result<u64, CacheError>)
        ensures
            r is Ok,
    {
        let lock = arc_borrow(&self.sets);
        let (mut inr, handle) = lock.acquire_write();
        let n = inr.set_interstore(inter_name, keys);
        handle.release_write(inr);
        Ok(n as u64)
    }

    /// Whether a member is in the set under a key; nothing is a member of
    /// an absent set. Never fails.
    pub fn set_ismember<V: ToCacheString>(&self, key: &str, member: V) -> (r: Result<
        bool,
        CacheError,
    >)
        ensures
            match r {
                Ok(b) => exists|s: Map<Seq<char>, Set<Seq<char>>>|
                    b == set_at(s, key@).contains(member.spec_string()),
                Err(_) => false,
            },
    {
        let m = member.to_cache_string();
        let lock = arc_borrow(&self.sets);
        let handle = lock.acquire_read();
        let inr = handle.borrow();
        let b = inr.set_ismember(key, m.as_str());
        let ghost s = inr.set_records();
        handle.release_read();
        proof {
            assert(b == set_at(s, key@).contains(member.spec_string()));
        }
        Ok(b)
    }

    /// The members of the set under a key, in some order, without
    /// duplicates; an absent key has none. Never fails.
    pub fn set_members(&self, key: &str) -> (r: Result<Vec<String>, CacheError>)
        ensures
            match r {
                Ok(ms) => ms.deep_view().no_duplicates()
                    && exists|s: Map<Seq<char>, Set<Seq<char>>>|
                        ms.deep_view().to_set() == set_at(s, key@),
                Err(_) => false,
            },
    {
        let lock = arc_borrow(&self.sets);
        let handle = lock.acquire_read();
        let inr = handle.borrow();
        let ms = inr.set_members(key);
        let ghost s = inr.set_records();
        handle.release_read();
        proof {
            assert(ms.deep_view().to_set() == set_at(s, key@));
        }
        Ok(ms)
    }

    /// Moves a member from one set to another when the source has it;
    /// reports whether it moved. Never fails.
    pub fn set_move<V: ToCacheString>(&self, key1: &str, key2: &str, member: V) -> (r: Result<
        bool,
        CacheError,
    >)
        ensures
            match r {
                Ok(b) => exists|s: Map<Seq<char>, Set<Seq<char>>>|
                    b == set_at(s, key1@).contains(member.spec_string()),
                Err(_) => false,
            },
    {
        let m = member.to_cache_string();
        let lock = arc_borrow(&self.sets);
        let (mut inr, handle) = lock.acquire_write();
        let ghost s = inr.set_records();
        let b = inr.set_move(key1, key2, m.as_str());
        handle.release_write(inr);
        proof {
            assert(b == set_at(s, key1@).contains(member.spec_string()));
        }
        Ok(b)
    }

    /// Removes a member from the set under a key; an absent key or member
    /// is a no-op. Reports whether the member was there. Never fails.
    pub fn set_rem<V: ToCacheString>(&self, key: &str, member: V) -> (r: Result<bool, CacheError>)
        ensures
            match r {
                Ok(b) => exists|s: Map<Seq<char>, Set<Seq<char>>>|
                    b == set_at(s, key@).contains(member.spec_string()),
                Err(_) => false,
            },
    {
        let m = member.to_cache_string();
        let lock = arc_borrow(&self.sets);
        let (mut inr, handle) = lock.acquire_write();
        let ghost s = inr.set_records();
        let b = inr.set_rem(key, m.as_str());
        handle.release_write(inr);
        proof {
            assert(b == set_at(s, key@).contains(member.spec_string()));
        }
        Ok(b)
    }

    /// The members under any of the named sets; an absent set contributes
    /// nothing. Never fails.
    pub fn set_union(&self, keys: &[&str]) -> (r: Result<Vec<String>, CacheError>)
        ensures
            match r {
                Ok(ms) => ms.deep_view().no_duplicates()
                    && exists|s: Map<Seq<char>, Set<Seq<char>>>|
                        ms.deep_view().to_set() == spec_union_of(s, keys.deep_view()),
                Err(_) => false,
            },
    {
        let lock = arc_borrow(&self.sets);
        let handle = lock.acquire_read();
        let inr = handle.borrow();
        let ms = inr.set_union(keys);
        let ghost s = inr.set_records();
        handle.release_read();
        proof {
            assert(ms.deep_view().to_set() == spec_union_of(s, keys.deep_view()));
        }
        Ok(ms)
    }

    /// Stores the union of the named sets under `union_name`, overwriting
    /// it, and reports the stored cardinality. Never fails.
    pub fn set_unionstore(&self, union_name: &str, keys: &[&str]) -> (r: Result<u64, CacheError>)
        ensures
            r is Ok,
    {
        let lock = arc_borrow(&self.sets);
        let (mut inr, handle) = lock.acquire_write();
        let n = inr.set_unionstore(union_name, keys);
        handle.release_write(inr);
        Ok(n as u64)
    }
}
} // verus!
