//! The closed set of compression methods this reader understands.

use vstd::prelude::*;

verus! {

/// A declared compression method.  Anything but the three understood tags
/// is carried around as [`CompressionMethod::Unsupported`] and rejected at
/// open time.
#[derive(Clone, Copy, Debug, PartialEq, Eq, Structural)]
pub enum CompressionMethod {
    /// No transform: the stored bytes are the entry's bytes.
    Stored,
    /// Raw deflate.
    Deflated,
    /// Bzip2.
    Bzip2,
    /// A recognized field value with no implementation behind it.
    Unsupported(u16),
}

pub open spec fn spec_method_from_u16(val: u16) -> CompressionMethod {
    if val == 0 {
        CompressionMethod::Stored
    } else if val == 8 {
        CompressionMethod::Deflated
    } else if val == 12 {
        CompressionMethod::Bzip2
    } else {
        CompressionMethod::Unsupported(val)
    }
}

/// True of the methods a pipeline can be built for.
pub open spec fn is_supported_method(m: CompressionMethod) -> bool {
    m is Stored || m is Deflated || m is Bzip2
}

impl CompressionMethod {
    pub fn from_u16(val: u16) -> (r: CompressionMethod)
        ensures
            r == spec_method_from_u16(val),
    {
        match val {
            0 => CompressionMethod::Stored,
            8 => CompressionMethod::Deflated,
            12 => CompressionMethod::Bzip2,
            v => CompressionMethod::Unsupported(v),
        }
    }

    pub fn to_u16(self) -> (r: u16)
        ensures
            r == match self {
                CompressionMethod::Stored => 0u16,
                CompressionMethod::Deflated => 8u16,
                CompressionMethod::Bzip2 => 12u16,
                CompressionMethod::Unsupported(v) => v,
            },
    {
        match self {
            CompressionMethod::Stored => 0,
            CompressionMethod::Deflated => 8,
            CompressionMethod::Bzip2 => 12,
            CompressionMethod::Unsupported(v) => v,
        }
    }
}

} // verus!
