//! Bulk byte transforms, through the decompression collaborators.
//!
//! Whether a byte string decodes at all, and what it decodes to, are both
//! functions of the bytes alone; each gets a name here, and the wrappers
//! tie the collaborators' outcomes to those names.

use vstd::prelude::*;

verus! {

/// Whether a byte string is accepted by the raw-deflate decoder: a
/// function of the bytes alone.
pub uninterp spec fn inflate_ok(bytes: Seq<u8>) -> bool;

/// The output of a successful raw-deflate decode of a byte string: a
/// function of the bytes alone.
pub uninterp spec fn inflate_of(bytes: Seq<u8>) -> Seq<u8>;

/// Whether a byte string is accepted by the bzip2 decoder: a function of
/// the bytes alone.
pub uninterp spec fn bunzip_ok(bytes: Seq<u8>) -> bool;

/// The output of a successful bzip2 decode of a byte string: a function of
/// the bytes alone.
pub uninterp spec fn bunzip_of(bytes: Seq<u8>) -> Seq<u8>;

/// Relies on `flate2::read::DeflateDecoder`: reading it to the end
/// succeeds or fails depending on the input bytes alone, and a success
/// yields their deflate decoding.
#[verifier::external_body]
pub(crate) fn inflate(bytes: &Vec<u8>) -> (r: Option<Vec<u8>>)
    ensures
        r is Some <==> inflate_ok(bytes@),
        r matches Some(v) ==> v@ == inflate_of(bytes@),
{
    let mut decoder = flate2::read::DeflateDecoder::new(bytes.as_slice());
    let mut out: Vec<u8> = Vec::new();
    match std::io::Read::read_to_end(&mut decoder, &mut out) {
        Ok(_) => Some(out),
        Err(_) => None,
    }
}

/// Relies on `bzip2::read::BzDecoder`: reading it to the end succeeds or
/// fails depending on the input bytes alone, and a success yields their
/// bzip2 decoding.
#[verifier::external_body]
pub(crate) fn bunzip(bytes: &Vec<u8>) -> (r: Option<Vec<u8>>)
    ensures
        r is Some <==> bunzip_ok(bytes@),
        r matches Some(v) ==> v@ == bunzip_of(bytes@),
{
    let mut decoder = bzip2::read::BzDecoder::new(bytes.as_slice());
    let mut out: Vec<u8> = Vec::new();
    match std::io::Read::read_to_end(&mut decoder, &mut out) {
        Ok(_) => Some(out),
        Err(_) => None,
    }
}

} // verus!
