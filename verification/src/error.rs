use vstd::prelude::*;

verus! {

/// The closed set of failure kinds shared by both engines. Native protocol
/// errors of the remote store and pool checkout errors are folded into this
/// taxonomy, so callers never branch on backend-specific error types.
#[derive(Debug, Clone, PartialEq, Eq)]
pub enum CacheError {
    /// A protocol-level error reported by the remote store.
    RedisCacheError(String),
    /// A write could not be carried out.
    InsertionError(String),
    /// A delete could not be carried out.
    DeletionError(String),
    /// A stored record could not be read back as the requested type.
    AccessError(String),
    /// A connection could not be checked out of the pool in time, or failed.
    ConnectionError(String),
    /// Any other failure, carrying a description.
    Other(String),
}

impl CacheError {
    /// A human-readable description of the failure.
    pub fn describe(&self) -> (r: String)
        ensures
            r@ == self.spec_describe(),
    {
        match self {
            CacheError::RedisCacheError(d) => d.clone(),
            CacheError::InsertionError(d) => d.clone(),
            CacheError::DeletionError(d) => d.clone(),
            CacheError::AccessError(d) => d.clone(),
            CacheError::ConnectionError(d) => d.clone(),
            CacheError::Other(d) => d.clone(),
        }
    }

    /// The description carried by any variant.
    pub open spec fn spec_describe(&self) -> Seq<char> {
        match self {
            CacheError::RedisCacheError(d) => d@,
            CacheError::InsertionError(d) => d@,
            CacheError::DeletionError(d) => d@,
            CacheError::AccessError(d) => d@,
            CacheError::ConnectionError(d) => d@,
            CacheError::Other(d) => d@,
        }
    }
}
} // verus!
