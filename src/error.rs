//! Errors reported by the library.
use vstd::prelude::*;

verus! {

/// Why an operation failed.
#[derive(Debug, Clone, PartialEq, Eq)]
pub enum Error {
    /// The transport (network, TLS or HTTP) failed; the text describes it.
    TransportError(String),
    /// A response body did not match the expected schema.
    DecodeError(String),
    /// A lookup by id found nothing.
    NotFound,
    /// Pool pagination ended before the declared count was reached:
    /// the declared count, then the number of posts gathered.
    PoolSizeMismatch(u64, u64),
    /// A post carried a rating code outside `s`, `q` and `e`.
    UnknownRating(String),
    /// A user carried a level code outside the known table.
    UnknownLevel(u64),
}

} // verus!
