//! Sample storable types. They are the library's own verified
//! implementations of the record contract and the subjects of its test
//! suite; user code would provide types of the same shape, hand-written or
//! generated.

use vstd::prelude::*;
use vstd::string::StringExecFns;

use crate::error::CacheError;
use crate::record::FieldMap;
use crate::strings::dec_digits;
use crate::strings::lemma_parse_dec_digits;
use crate::strings::parse_u64;
use crate::strings::spec_parse_u64;
use crate::Cacheable;

verus! {

/// A two-field model: one numeric field, one string field.
#[derive(Clone)]
pub struct DataTest {
    pub field1: u16,
    pub field2: String,
}

/// The data carried by a `DataTest`, free of allocation identity.
pub struct DataTestData {
    pub field1: u16,
    pub field2: Seq<char>,
}

impl DeepView for DataTest {
    type V = DataTestData;

    open spec fn deep_view(&self) -> DataTestData {
        DataTestData { field1: self.field1, field2: self.field2@ }
    }
}

impl Cacheable for DataTest {
    open spec fn spec_model_name() -> Seq<char> {
        "DataTest"@
    }

    open spec fn spec_record_of(v: DataTestData) -> Map<Seq<char>, Seq<char>> {
        Map::empty()
            .insert("field1"@, dec_digits(v.field1 as int))
            .insert("field2"@, v.field2)
    }

    open spec fn spec_parse_record(rec: Map<Seq<char>, Seq<char>>) -> Option<DataTestData> {
        if rec.contains_key("field1"@) && rec.contains_key("field2"@) {
            match spec_parse_u64(rec["field1"@]) {
                Some(n) => if n <= u16::MAX {
                    Some(DataTestData { field1: n as u16, field2: rec["field2"@] })
                } else {
                    None
                },
                None => None,
            }
        } else {
            None
        }
    }

    open spec fn spec_expires_after(&self) -> Option<usize> {
        None
    }

    fn model_name() -> (r: &'static str) {
        "DataTest"
    }

    fn to_redis_obj(&self) -> (r: FieldMap) {
        let mut r = FieldMap::new();
        r.set(String::from_str("field1"), crate::strings::u64_to_string(self.field1 as u64));
        r.set(String::from_str("field2"), self.field2.clone());
        r
    }

    fn from_redis_obj(rec: &FieldMap) -> (r: Result<Self, CacheError>) {
        let f1 = match rec.get("field1") {
            Some(v) => v,
            None => {
                return Err(CacheError::AccessError(String::from_str("missing field")));
            },
        };
        let n = match parse_u64(f1.as_str()) {
            Some(n) => n,
            None => {
                return Err(CacheError::AccessError(String::from_str("bad numeric field")));
            },
        };
        if n > u16::MAX as u64 {
            return Err(CacheError::AccessError(String::from_str("numeric field out of range")));
        }
        let f2 = match rec.get("field2") {
            Some(v) => v.clone(),
            None => {
                return Err(CacheError::AccessError(String::from_str("missing field")));
            },
        };
        Ok(DataTest { field1: n as u16, field2: f2 })
    }

    fn expires_after(&self) -> (r: Option<usize>) {
        None
    }

    proof fn lemma_round_trip(v: DataTestData) {
        reveal_strlit("field1");
        reveal_strlit("field2");
        assert("field1"@[5] == '1' && "field2"@[5] == '2');
        lemma_parse_dec_digits(v.field1 as u64);
    }
}

/// A three-field model: one numeric field and two string fields.
#[derive(Clone)]
pub struct DataTestDerive {
    pub field1: u16,
    pub field2: String,
    pub field_uuid: String,
}

/// The data carried by a `DataTestDerive`.
pub struct DataTestDeriveData {
    pub field1: u16,
    pub field2: Seq<char>,
    pub field_uuid: Seq<char>,
}

impl DeepView for DataTestDerive {
    type V = DataTestDeriveData;

    open spec fn deep_view(&self) -> DataTestDeriveData {
        DataTestDeriveData {
            field1: self.field1,
            field2: self.field2@,
            field_uuid: self.field_uuid@,
        }
    }
}

impl Cacheable for DataTestDerive {
    open spec fn spec_model_name() -> Seq<char> {
        "DataTestDerive"@
    }

    open spec fn spec_record_of(v: DataTestDeriveData) -> Map<Seq<char>, Seq<char>> {
        Map::empty()
            .insert("field1"@, dec_digits(v.field1 as int))
            .insert("field2"@, v.field2)
            .insert("field_uuid"@, v.field_uuid)
    }

    open spec fn spec_parse_record(rec: Map<Seq<char>, Seq<char>>) -> Option<DataTestDeriveData> {
        if rec.contains_key("field1"@) && rec.contains_key("field2"@)
            && rec.contains_key("field_uuid"@) {
            match spec_parse_u64(rec["field1"@]) {
                Some(n) => if n <= u16::MAX {
                    Some(DataTestDeriveData {
                        field1: n as u16,
                        field2: rec["field2"@],
                        field_uuid: rec["field_uuid"@],
                    })
                } else {
                    None
                },
                None => None,
            }
        } else {
            None
        }
    }

    open spec fn spec_expires_after(&self) -> Option<usize> {
        None
    }

    fn model_name() -> (r: &'static str) {
        "DataTestDerive"
    }

    fn to_redis_obj(&self) -> (r: FieldMap) {
        let mut r = FieldMap::new();
        r.set(String::from_str("field1"), crate::strings::u64_to_string(self.field1 as u64));
        r.set(String::from_str("field2"), self.field2.clone());
        r.set(String::from_str("field_uuid"), self.field_uuid.clone());
        r
    }

    fn from_redis_obj(rec: &FieldMap) -> (r: Result<Self, CacheError>) {
        let f1 = match rec.get("field1") {
            Some(v) => v,
            None => {
                return Err(CacheError::AccessError(String::from_str("missing field")));
            },
        };
        let n = match parse_u64(f1.as_str()) {
            Some(n) => n,
            None => {
                return Err(CacheError::AccessError(String::from_str("bad numeric field")));
            },
        };
        if n > u16::MAX as u64 {
            return Err(CacheError::AccessError(String::from_str("numeric field out of range")));
        }
        let f2 = match rec.get("field2") {
            Some(v) => v.clone(),
            None => {
                return Err(CacheError::AccessError(String::from_str("missing field")));
            },
        };
        let fu = match rec.get("field_uuid") {
            Some(v) => v.clone(),
            None => {
                return Err(CacheError::AccessError(String::from_str("missing field")));
            },
        };
        Ok(DataTestDerive { field1: n as u16, field2: f2, field_uuid: fu })
    }

    fn expires_after(&self) -> (r: Option<usize>) {
        None
    }

    proof fn lemma_round_trip(v: DataTestDeriveData) {
        reveal_strlit("field1");
        reveal_strlit("field2");
        reveal_strlit("field_uuid");
        assert("field1"@[5] == '1' && "field2"@[5] == '2');
        assert("field_uuid"@.len() == 10);
        lemma_parse_dec_digits(v.field1 as u64);
    }
}

/// A single-field model that asks for a one-second time to live.
#[derive(Clone)]
pub struct DataTestExpires {
    pub field_temp: String,
}

/// The data carried by a `DataTestExpires`.
pub struct DataTestExpiresData {
    pub field_temp: Seq<char>,
}

impl DeepView for DataTestExpires {
    type V = DataTestExpiresData;

    open spec fn deep_view(&self) -> DataTestExpiresData {
        DataTestExpiresData { field_temp: self.field_temp@ }
    }
}

impl Cacheable for DataTestExpires {
    open spec fn spec_model_name() -> Seq<char> {
        "DataTestExpires"@
    }

    open spec fn spec_record_of(v: DataTestExpiresData) -> Map<Seq<char>, Seq<char>> {
        Map::empty().insert("field_temp"@, v.field_temp)
    }

    open spec fn spec_parse_record(rec: Map<Seq<char>, Seq<char>>) -> Option<DataTestExpiresData> {
        if rec.contains_key("field_temp"@) {
            Some(DataTestExpiresData { field_temp: rec["field_temp"@] })
        } else {
            None
        }
    }

    open spec fn spec_expires_after(&self) -> Option<usize> {
        Some(1)
    }

    fn model_name() -> (r: &'static str) {
        "DataTestExpires"
    }

    fn to_redis_obj(&self) -> (r: FieldMap) {
        let mut r = FieldMap::new();
        r.set(String::from_str("field_temp"), self.field_temp.clone());
        r
    }

    fn from_redis_obj(rec: &FieldMap) -> (r: Result<Self, CacheError>) {
        let ft = match rec.get("field_temp") {
            Some(v) => v.clone(),
            None => {
                return Err(CacheError::AccessError(String::from_str("missing field")));
            },
        };
        Ok(DataTestExpires { field_temp: ft })
    }

    fn expires_after(&self) -> (r: Option<usize>) {
        Some(1)
    }

    proof fn lemma_round_trip(v: DataTestExpiresData) {
    }
}
} // verus!
