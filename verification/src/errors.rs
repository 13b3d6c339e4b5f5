//! The closed error type of the engine and its mapping to HTTP status codes.

use vstd::prelude::*;

verus! {

pub const CREATED: u16 = 201;
pub const BAD_REQUEST: u16 = 400;
pub const FORBIDDEN: u16 = 403;
pub const NOT_FOUND: u16 = 404;
pub const METHOD_NOT_ALLOWED: u16 = 405;
pub const CONFLICT: u16 = 409;
pub const PAYLOAD_TOO_LARGE: u16 = 413;
pub const URI_TOO_LONG: u16 = 414;
pub const UNSUPPORTED_MEDIA_TYPE: u16 = 415;
pub const LOCKED: u16 = 423;
pub const INTERNAL_SERVER_ERROR: u16 = 500;
pub const NOT_IMPLEMENTED: u16 = 501;
pub const BAD_GATEWAY: u16 = 502;
pub const GATEWAY_TIMEOUT: u16 = 504;
pub const INSUFFICIENT_STORAGE: u16 = 507;
pub const LOOP_DETECTED: u16 = 508;

/// What a filesystem backend can answer when an operation fails.
#[derive(Clone, Copy, Debug, PartialEq, Eq, Structural)]
pub enum FsError {
    NotImplemented,
    GeneralFailure,
    Exists,
    NotFound,
    Forbidden,
    InsufficientStorage,
    LoopDetected,
    PathTooLong,
    TooLarge,
    IsRemote,
}

/// The cause of a transport or body I/O failure, as far as the engine reads it.
#[derive(Clone, Copy, Debug, PartialEq, Eq, Structural)]
pub enum IoErrorKind {
    NotFound,
    PermissionDenied,
    AlreadyExists,
    TimedOut,
    UnexpectedEof,
    Other,
}

/// Every failure of a request is one of these four.
#[derive(Clone, Copy, Debug, PartialEq, Eq, Structural)]
pub enum DavError {
    /// A plain status.
    Status(u16),
    /// A status after which the connection has to be closed.
    StatusClose(u16),
    /// The transport or the body stream failed.
    IoError(IoErrorKind),
    /// The filesystem backend failed.
    FsError(FsError),
}

pub type DavResult<T> = Result<T, DavError>;

/// The status that stands for a backend error.
pub open spec fn fs_status(e: FsError) -> u16 {
    match e {
        FsError::NotImplemented => NOT_IMPLEMENTED,
        FsError::GeneralFailure => INTERNAL_SERVER_ERROR,
        FsError::Exists => METHOD_NOT_ALLOWED,
        FsError::NotFound => NOT_FOUND,
        FsError::Forbidden => FORBIDDEN,
        FsError::InsufficientStorage => INSUFFICIENT_STORAGE,
        FsError::LoopDetected => LOOP_DETECTED,
        FsError::PathTooLong => URI_TOO_LONG,
        FsError::TooLarge => PAYLOAD_TOO_LARGE,
        FsError::IsRemote => BAD_GATEWAY,
    }
}

/// The status that stands for an I/O failure.
pub open spec fn io_status(k: IoErrorKind) -> u16 {
    match k {
        IoErrorKind::NotFound => NOT_FOUND,
        IoErrorKind::PermissionDenied => FORBIDDEN,
        IoErrorKind::AlreadyExists => CONFLICT,
        IoErrorKind::TimedOut => GATEWAY_TIMEOUT,
        IoErrorKind::UnexpectedEof => BAD_GATEWAY,
        IoErrorKind::Other => BAD_GATEWAY,
    }
}

pub fn fserror_to_status(e: FsError) -> (code: u16)
    ensures
        code == fs_status(e),
{
    match e {
        FsError::NotImplemented => NOT_IMPLEMENTED,
        FsError::GeneralFailure => INTERNAL_SERVER_ERROR,
        FsError::Exists => METHOD_NOT_ALLOWED,
        FsError::NotFound => NOT_FOUND,
        FsError::Forbidden => FORBIDDEN,
        FsError::InsufficientStorage => INSUFFICIENT_STORAGE,
        FsError::LoopDetected => LOOP_DETECTED,
        FsError::PathTooLong => URI_TOO_LONG,
        FsError::TooLarge => PAYLOAD_TOO_LARGE,
        FsError::IsRemote => BAD_GATEWAY,
    }
}

pub fn ioerror_to_status(k: IoErrorKind) -> (code: u16)
    ensures
        code == io_status(k),
{
    match k {
        IoErrorKind::NotFound => NOT_FOUND,
        IoErrorKind::PermissionDenied => FORBIDDEN,
        IoErrorKind::AlreadyExists => CONFLICT,
        IoErrorKind::TimedOut => GATEWAY_TIMEOUT,
        IoErrorKind::UnexpectedEof => BAD_GATEWAY,
        IoErrorKind::Other => BAD_GATEWAY,
    }
}

impl DavError {
    /// The status code that an error is answered with.
    pub open spec fn status_spec(self) -> u16 {
        match self {
            DavError::Status(c) => c,
            DavError::StatusClose(c) => c,
            DavError::IoError(k) => io_status(k),
            DavError::FsError(e) => fs_status(e),
        }
    }

    /// Whether the connection can no longer be trusted after the error.
    pub open spec fn must_close_spec(self) -> bool {
        match self {
            DavError::Status(_) => false,
            DavError::StatusClose(_) => true,
            DavError::IoError(_) => true,
            DavError::FsError(_) => false,
        }
    }

    pub fn statuscode(&self) -> (code: u16)
        ensures
            code == self.status_spec(),
    {
        match self {
            DavError::Status(c) => *c,
            DavError::StatusClose(c) => *c,
            DavError::IoError(k) => ioerror_to_status(*k),
            DavError::FsError(e) => fserror_to_status(*e),
        }
    }

    pub fn must_close(&self) -> (close: bool)
        ensures
            close == self.must_close_spec(),
    {
        match self {
            DavError::Status(_) => false,
            DavError::StatusClose(_) => true,
            DavError::IoError(_) => true,
            DavError::FsError(_) => false,
        }
    }
}

} // verus!
