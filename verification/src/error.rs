//! Error taxonomy for the request-handling core.
//!
//! A `NotFound` outcome marks a validation failure (a malformed shard key or
//! an unknown informational page) and is user-visible; an `Internal` outcome
//! marks a collaborator failure and is never produced by the verified core
//! itself. The internal class carries its cause, so that a failed query is
//! distinguishable from a worker that never completed without leaking
//! collaborator detail into the response.

use vstd::prelude::*;

verus! {

/// Which collaborator failed when a request ends internally.
#[derive(Debug, Clone, Copy, PartialEq, Eq, Structural)]
pub enum InternalCause {
    /// The aggregation or configuration query itself failed.
    QueryFailed,
    /// The worker running the blocking query never completed.
    WorkerFailed,
}

/// The two failure classes a request can end in.
#[derive(Debug, Clone, Copy, PartialEq, Eq, Structural)]
pub enum SiteError {
    /// The request named something that does not exist; a 404-equivalent.
    NotFound,
    /// A collaborator failed; a 500-equivalent.
    Internal(InternalCause),
}

impl SiteError {
    /// The numeric status an HTTP adapter would attach to this failure.
    pub fn status_code(&self) -> (r: u16)
        ensures
            *self == SiteError::NotFound ==> r == 404,
            *self is Internal ==> r == 500,
    {
        match self {
            SiteError::NotFound => 404,
            SiteError::Internal(_) => 500,
        }
    }
}

} // verus!
