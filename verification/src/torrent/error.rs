//! Typed errors for the torrent backend.

use vstd::prelude::*;
use vstd::string::StringExecFns;
use crate::common::Error;

verus! {

/// Errors produced by the torrent backend.
#[derive(Debug, Clone)]
pub enum BackendError {
    /// The supplied source is not a magnet, existing `.torrent` file, or
    /// remote `.torrent` URL.
    InvalidSource,
    /// The requested transfer does not exist.
    TransferNotFound,
    /// The operation conflicts with the transfer's current state.
    InvalidState(String),
    /// The backend does not support the requested operation or source.
    Unsupported(String),
    /// The transfer backend is not running.
    Unavailable,
    /// A path escaped a configured root or was otherwise rejected.
    UnsafePath,
    /// An I/O failure while reading sources or writing data (its message).
    Io(String),
    /// An unexpected internal failure.
    Internal(String),
}

/// How a backend error maps into the shared error vocabulary.
pub open spec fn to_common(e: BackendError) -> Error {
    match e {
        BackendError::InvalidSource => Error::InvalidSource,
        BackendError::TransferNotFound => Error::TransferNotFound,
        BackendError::InvalidState(s) => Error::InvalidState(s),
        BackendError::Unsupported(s) => Error::Backend(s),
        BackendError::Unavailable => Error::BackendUnavailable,
        BackendError::UnsafePath => Error::UnsafePath,
        BackendError::Io(s) => Error::Backend(s),
        BackendError::Internal(s) => Error::Internal(s),
    }
}

impl BackendError {
    /// Convert into the shared error; an I/O failure becomes a backend
    /// error whose detail is `io error: <message>`.
    pub fn into_common(self) -> (e: Error)
        ensures
            match self {
                BackendError::Io(m) => e matches Error::Backend(s) && s@ == "io error: "@ + m@,
                _ => e == to_common(self),
            },
    {
        match self {
            BackendError::InvalidSource => Error::InvalidSource,
            BackendError::TransferNotFound => Error::TransferNotFound,
            BackendError::InvalidState(s) => Error::InvalidState(s),
            BackendError::Unsupported(s) => Error::Backend(s),
            BackendError::Unavailable => Error::BackendUnavailable,
            BackendError::UnsafePath => Error::UnsafePath,
            BackendError::Io(m) => {
                let mut s = String::from_str("io error: ");
                s.append(m.as_str());
                Error::Backend(s)
            },
            BackendError::Internal(s) => Error::Internal(s),
        }
    }
}

} // verus!
