//! CRC-32 of a byte string, through the checksum collaborator.

use vstd::prelude::*;

verus! {

/// The CRC-32 (IEEE) checksum of a byte string: a function of the bytes
/// alone.
pub uninterp spec fn crc32_of(bytes: Seq<u8>) -> u32;

/// Relies on `flate2::Crc` (crc32fast underneath): feeding it a byte string
/// and taking the sum yields that string's CRC-32 checksum.
#[verifier::external_body]
pub(crate) fn crc32_bytes(bytes: &Vec<u8>) -> (r: u32)
    ensures
        r == crc32_of(bytes@),
{
    let mut crc = flate2::Crc::new();
    crc.update(bytes.as_slice());
    crc.sum()
}

} // verus!
