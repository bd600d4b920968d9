//! The error kinds that fallible operations of this crate report.

use vstd::prelude::*;

verus! {

/// Everything that can go wrong inside the object-relational layer.
///
/// No error is retried or swallowed: every fallible operation returns its
/// error immediately to the caller.
#[derive(Debug, Clone, PartialEq, Eq)]
pub enum OrmError {
    /// An operation referenced a table name absent from the held schema list.
    SchemaNotFound,
    /// An operation was attempted before a connection pool was established.
    ConnectionUnavailable,
    /// A row could not be converted into the target structured value;
    /// carries the underlying conversion failure's description.
    DecodeError(String),
    /// A terminal single-row fetch found zero rows.
    NotFound,
    /// A malformed argument, e.g. a filter object with other than exactly
    /// one key, was detected before any database call.
    PreconditionViolation,
    /// Opaque pass-through of a failure reported by the connection layer.
    DatabaseError(String),
}

} // verus!
