//! Error type shared by all archive operations.

use vstd::prelude::*;

verus! {

/// Error cases an archive operation can run into.
#[derive(Debug)]
pub enum ZipError {
    /// The underlying byte source ended before a read could be finished.
    Io,
    /// The bytes do not form a consistent archive: a signature or an offset
    /// computation is corrupt.  Fatal for the whole operation.
    InvalidArchive(&'static str),
    /// The archive uses a recognized but unimplemented feature, such as
    /// encryption, multi-disk layout, or an unknown compression method.
    UnsupportedArchive(&'static str),
    /// An index or name lookup missed; distinguishable from corruption.
    FileNotFound,
    /// The checksum accumulated over the delivered bytes did not match the
    /// declared one; reported only once a stream is drained to its end.
    Crc32Mismatch,
}

/// Result alias used throughout the crate.
pub type ZipResult<T> = Result<T, ZipError>;

/// The failure classes of [`ZipError`], without their detail text; contracts
/// pin outcomes down to this level.
pub enum FailKind {
    Io,
    Invalid,
    Unsupported,
    NotFound,
    Crc,
}

/// The failure class of an error value.
pub open spec fn err_kind(e: ZipError) -> FailKind {
    match e {
        ZipError::Io => FailKind::Io,
        ZipError::InvalidArchive(_) => FailKind::Invalid,
        ZipError::UnsupportedArchive(_) => FailKind::Unsupported,
        ZipError::FileNotFound => FailKind::NotFound,
        ZipError::Crc32Mismatch => FailKind::Crc,
    }
}

/// Builds the failure used for recognized-but-unimplemented features.
pub fn unsupported_zip_error<T>(detail: &'static str) -> (r: ZipResult<T>)
    ensures
        r matches Err(e) && e == ZipError::UnsupportedArchive(detail),
{
    Err(ZipError::UnsupportedArchive(detail))
}

} // verus!
