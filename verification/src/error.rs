//! The error taxonomy of the library.
//!
//! Every fallible operation reports one of three kinds: an allocation
//! failure (the backend returned a null handle: not found or out of
//! resources, not distinguished further), an invalid argument (a string
//! cannot be encoded for the backend, or the backend rejects a parameter),
//! or any other backend error, carried through with its numeric code.

use vstd::prelude::*;

verus! {

/// The errno value the platform reports for an allocation failure.
pub const ENOMEM: i32 = 12;

/// The errno value the platform reports for an invalid argument.
pub const EINVAL: i32 = 22;

/// The three kinds of failure a backend call can surface.
#[derive(Clone, Copy, Debug, PartialEq, Eq, Structural)]
pub enum ErrorKind {
    /// The backend returned a null handle on construction or lookup.
    AllocationFailure,
    /// A provided string cannot be encoded, or the backend rejected a
    /// parameter.
    InvalidArgument,
    /// Any other native error, carried with its numeric code.
    BackendError(i32),
}

/// An error reported by the device subsystem, carrying the native errno.
#[derive(Clone, Copy, Debug, PartialEq, Eq, Structural)]
pub struct Error {
    /// The native error code underlying this error.
    pub errno: i32,
}

/// The kind an error with the given errno is classified as.
pub open spec fn spec_kind_of(errno: i32) -> ErrorKind {
    if errno == ENOMEM {
        ErrorKind::AllocationFailure
    } else if errno == EINVAL {
        ErrorKind::InvalidArgument
    } else {
        ErrorKind::BackendError(errno)
    }
}

/// Translates a native error code into an error value.
pub fn from_errno(errno: i32) -> (r: Error)
    ensures
        r.errno == errno,
{
    Error { errno }
}

impl Error {
    /// The native error code underlying this error.
    pub fn errno(&self) -> (r: i32)
        ensures
            r == self.errno,
    {
        self.errno
    }

    /// The kind this error is classified as.
    pub fn kind(&self) -> (r: ErrorKind)
        ensures
            r == spec_kind_of(self.errno),
    {
        if self.errno == ENOMEM {
            ErrorKind::AllocationFailure
        } else if self.errno == EINVAL {
            ErrorKind::InvalidArgument
        } else {
            ErrorKind::BackendError(self.errno)
        }
    }
}

/// The error used when the backend returns a null handle.
pub fn alloc_error() -> (r: Error)
    ensures
        r.errno == ENOMEM,
        spec_kind_of(r.errno) == ErrorKind::AllocationFailure,
{
    from_errno(ENOMEM)
}

/// The error used when a provided string cannot be encoded for the backend.
pub fn invalid_argument() -> (r: Error)
    ensures
        r.errno == EINVAL,
        spec_kind_of(r.errno) == ErrorKind::InvalidArgument,
{
    from_errno(EINVAL)
}

} // verus!
