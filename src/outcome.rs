use vstd::prelude::*;

verus! {

/// Response code of a request that succeeded, possibly with zero-valued data.
pub const CODE_OK: i32 = 200;

/// Response code of a request that failed inside the service.
pub const CODE_INTERNAL_ERROR: i32 = 50001;

/// How one read query against the record store ended.
///
/// `Empty` is the benign absence of matching rows; `Fatal` is any other
/// failure (connectivity, a malformed query, a payload that does not decode).
pub enum QueryOutcome<T> {
    Empty,
    Rows(T),
    Fatal,
}

} // verus!
