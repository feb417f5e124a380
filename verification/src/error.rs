//! The error taxonomy of the core and its mapping to the numeric codes the
//! kernel bridge expects.

use vstd::prelude::*;

verus! {

/// No such entry.
pub const ENOENT: i32 = 2;

/// Input/output error.
pub const EIO: i32 = 5;

/// Bad file handle.
pub const EBADF: i32 = 9;

/// Permission denied.
pub const EACCES: i32 = 13;

/// File exists.
pub const EEXIST: i32 = 17;

/// Invalid argument.
pub const EINVAL: i32 = 22;

/// Function not implemented.
pub const ENOSYS: i32 = 38;

/// Operation not supported.
pub const EOPNOTSUPP: i32 = 95;

/// What can go wrong while serving a request.  Tree and manager operations
/// fail only with `NotFound`; the backend is the sole source of the
/// remaining failures, which bubble up unchanged.
#[derive(Clone, Copy, Debug, PartialEq, Eq, Structural)]
pub enum Error {
    /// The inode or name could not be resolved.
    NotFound,
    /// A read started past the end of the file.
    OutOfRange,
    /// The entry to create already exists.
    AlreadyExists,
    /// The backend refused the operation.
    PermissionDenied,
    /// The backend could not be reached.
    BackendUnavailable,
    /// The backend does not implement the operation.
    Unsupported,
    /// The handle is unknown or was already released.
    BadHandle,
    /// A local input/output failure.
    IO,
    /// Any other failure.
    Other,
}

impl Error {
    /// The numeric code reported to the kernel bridge for this error.
    pub fn errno(&self) -> (r: i32)
        ensures
            r == errno_of(*self),
    {
        match self {
            Error::NotFound => ENOENT,
            Error::OutOfRange => EINVAL,
            Error::AlreadyExists => EEXIST,
            Error::PermissionDenied => EACCES,
            Error::BackendUnavailable => EIO,
            Error::Unsupported => EOPNOTSUPP,
            Error::BadHandle => EBADF,
            Error::IO => EIO,
            Error::Other => EIO,
        }
    }
}

/// The mapping from errors to numeric codes.
pub open spec fn errno_of(e: Error) -> i32 {
    match e {
        Error::NotFound => ENOENT,
        Error::OutOfRange => EINVAL,
        Error::AlreadyExists => EEXIST,
        Error::PermissionDenied => EACCES,
        Error::BackendUnavailable => EIO,
        Error::Unsupported => EOPNOTSUPP,
        Error::BadHandle => EBADF,
        Error::IO => EIO,
        Error::Other => EIO,
    }
}

} // verus!
