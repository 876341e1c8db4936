//! The shared error taxonomy.
//!
//! Repositories and the answer client classify every backend-specific fault
//! into one of these variants before returning to the transport layer, so
//! handlers only ever deal with this one type.

use vstd::prelude::*;

verus! {

/// The error taxonomy shared by every operation of the library.
#[derive(Clone, Copy, Debug, PartialEq, Eq, Structural)]
pub enum CoreError {
    /// Malformed numeric or textual input.
    ParseError,
    /// A transport or filesystem fault.
    IOError,
    /// A required field was absent.
    MissingParameters,
    /// The referenced entity does not exist.
    NotFound,
    /// A wrapped lower-level fault, such as a connection or storage failure.
    InternalError,
    /// An unclassified fallback.
    Unknown,
}

/// The backend-native fault classes a storage adapter distinguishes when it
/// catches an error of its own backend.
#[derive(Clone, Copy, Debug, PartialEq, Eq, Structural)]
pub enum StorageFault {
    /// The pool is exhausted or the connection could not be established.
    ConnectionUnavailable,
    /// A fault classified at the I/O layer.
    Io,
    /// Any other backend-native fault.
    Other,
}

impl CoreError {
    /// A human-readable description of the error.
    pub fn message(&self) -> (r: String)
        ensures
            *self == CoreError::ParseError ==> r@ == "parse error"@,
            *self == CoreError::IOError ==> r@ == "io error"@,
            *self == CoreError::MissingParameters ==> r@ == "missing parameters"@,
            *self == CoreError::NotFound ==> r@ == "not found"@,
            *self == CoreError::InternalError ==> r@ == "internal error"@,
            *self == CoreError::Unknown ==> r@ == "unknown data store error"@,
    {
        match self {
            CoreError::ParseError => "parse error".to_owned(),
            CoreError::IOError => "io error".to_owned(),
            CoreError::MissingParameters => "missing parameters".to_owned(),
            CoreError::NotFound => "not found".to_owned(),
            CoreError::InternalError => "internal error".to_owned(),
            CoreError::Unknown => "unknown data store error".to_owned(),
        }
    }

    /// Re-classifies a backend-native storage fault into the taxonomy, so
    /// the handler layer never sees a backend-specific error: pool
    /// exhaustion or a connection failure surfaces as `InternalError`, a
    /// fault classified at the I/O layer as `IOError`, and anything else
    /// falls back to `Unknown`.
    pub fn classify_storage_fault(fault: StorageFault) -> (e: CoreError)
        ensures
            fault == StorageFault::ConnectionUnavailable ==> e == CoreError::InternalError,
            fault == StorageFault::Io ==> e == CoreError::IOError,
            fault == StorageFault::Other ==> e == CoreError::Unknown,
    {
        match fault {
            StorageFault::ConnectionUnavailable => CoreError::InternalError,
            StorageFault::Io => CoreError::IOError,
            StorageFault::Other => CoreError::Unknown,
        }
    }

    /// The HTTP status that the handler layer reports for this error:
    /// a missing entity is the caller's problem, everything else is the
    /// server's.
    pub fn status_code(&self) -> (c: u16)
        ensures
            c == 404 <==> *self == CoreError::NotFound,
            *self != CoreError::NotFound ==> c == 500,
    {
        match self {
            CoreError::NotFound => 404,
            _ => 500,
        }
    }
}

} // verus!
