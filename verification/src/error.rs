//! The ways in which serving a resource can fail.

use vstd::prelude::*;

verus! {

/// Why a resource could not be stored, read or fetched.
#[derive(Clone, Copy, Debug, PartialEq, Eq, Structural)]
pub enum FetchError {
    /// The store holds no record under the identifier.
    NotFound,
    /// The request to the upstream registry could not be completed.
    Network,
    /// The upstream body claims to be JSON and cannot be read as JSON, or
    /// cannot be written again once rewritten.
    UpstreamParse,
    /// A stored record cannot be decoded.
    CorruptEntry,
    /// A record already exists under the identifier.
    AlreadyExists,
    /// The store failed to read or write.
    Io,
}

} // verus!
