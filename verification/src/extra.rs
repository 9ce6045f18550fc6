//! The tag/length/value scanner over header extension bytes.
//!
//! The buffer is a sequence of records — 2-byte tag, 2-byte declared
//! length, payload — with no overall count: the scan ends when the buffer
//! is exhausted.  Only the ZIP64 extended-information tag is interpreted:
//! each of its widened 64-bit fields is present only when the matching
//! classic field is saturated at `0xFFFFFFFF`, in the fixed order
//! uncompressed size, compressed size, header start.  A record that ends
//! before a needed field leaves the fields read so far applied and stops
//! the scan; the caller treats that as "widened field absent".

use crate::reader::{le16_at, le16_direct, le64_at, le64_direct};
use crate::result::{ZipError, ZipResult};
use crate::types::{EntryModel, ZipFileData};
use vstd::prelude::*;

verus! {

/// What one full scan of the extension buffer `d` from position `p`
/// leaves the three widenable fields at, starting from values `u`, `c`,
/// `h`; the flag is false when the scan stopped at a truncated record.
pub open spec fn ef_scan(d: Seq<u8>, p: int, u: u64, c: u64, h: u64) -> (u64, u64, u64, bool)
    decreases d.len() + 70000 - p,
{
    if p >= d.len() {
        (u, c, h, true)
    } else if p + 4 > d.len() {
        (u, c, h, false)
    } else {
        let kind = le16_at(d, p);
        let record_len = le16_at(d, p + 2);
        if kind == 1 {
            let needs_u = u == 0xFFFF_FFFF;
            if needs_u && p + 12 > d.len() {
                (u, c, h, false)
            } else {
                let u1 = if needs_u {
                    le64_at(d, p + 4) as u64
                } else {
                    u
                };
                let q1 = if needs_u {
                    p + 12
                } else {
                    p + 4
                };
                let needs_c = c == 0xFFFF_FFFF;
                if needs_c && q1 + 8 > d.len() {
                    (u1, c, h, false)
                } else {
                    let c1 = if needs_c {
                        le64_at(d, q1) as u64
                    } else {
                        c
                    };
                    let q2 = if needs_c {
                        q1 + 8
                    } else {
                        q1
                    };
                    let needs_h = h == 0xFFFF_FFFF;
                    if needs_h && q2 + 8 > d.len() {
                        (u1, c1, h, false)
                    } else {
                        let h1 = if needs_h {
                            le64_at(d, q2) as u64
                        } else {
                            h
                        };
                        let q3 = if needs_h {
                            q2 + 8
                        } else {
                            q2
                        };
                        let consumed = q3 - (p + 4);
                        let p2 = if record_len > consumed {
                            q3 + (record_len - consumed)
                        } else {
                            q3
                        };
                        ef_scan(d, p2, u1, c1, h1)
                    }
                }
            }
        } else {
            ef_scan(d, p + 4 + record_len, u, c, h)
        }
    }
}

/// Scans the extension bytes and widens the entry's saturated 32-bit
/// fields in place; a truncated record leaves the fields read so far and
/// reports [`ZipError::Io`], which callers tolerate.
pub fn parse_extra_field(file: &mut ZipFileData, data: &Vec<u8>) -> (r: ZipResult<()>)
    ensures
        ({
            let scan = ef_scan(
                data@,
                0,
                old(file).uncompressed_size,
                old(file).compressed_size,
                old(file).header_start,
            );
            &&& final(file)@ == (EntryModel {
                uncompressed_size: scan.0,
                compressed_size: scan.1,
                header_start: scan.2,
                ..old(file)@
            })
            &&& r is Ok <==> scan.3
            &&& r matches Err(e) ==> e is Io
        }),
{
    let ghost d = data@;
    let ghost u0 = file.uncompressed_size;
    let ghost c0 = file.compressed_size;
    let ghost h0 = file.header_start;
    let dlen: usize = data.len();
    let mut p: u128 = 0;
    loop
        invariant
            d == data@,
            u0 == old(file).uncompressed_size,
            c0 == old(file).compressed_size,
            h0 == old(file).header_start,
            dlen == d.len(),
            0 <= p,
            ef_scan(d, 0, u0, c0, h0) == ef_scan(
                d,
                p as int,
                file.uncompressed_size,
                file.compressed_size,
                file.header_start,
            ),
            file@ == (EntryModel {
                uncompressed_size: file.uncompressed_size,
                compressed_size: file.compressed_size,
                header_start: file.header_start,
                ..old(file)@
            }),
        decreases d.len() + 70000 - p,
    {
        if p >= dlen as u128 {
            return Ok(());
        }
        if p + 4 > dlen as u128 {
            return Err(ZipError::Io);
        }
        let i = p as usize;
        let kind = le16_direct(data, i);
        let record_len = le16_direct(data, i + 2);
        if kind == 0x0001 {
            let mut q: u128 = p + 4;
            let mut consumed: u64 = 0;
            if file.uncompressed_size == 0xFFFF_FFFF {
                if q + 8 > dlen as u128 {
                    return Err(ZipError::Io);
                }
                file.uncompressed_size = le64_direct(data, q as usize);
                q = q + 8;
                consumed = consumed + 8;
            }
            if file.compressed_size == 0xFFFF_FFFF {
                if q + 8 > dlen as u128 {
                    return Err(ZipError::Io);
                }
                file.compressed_size = le64_direct(data, q as usize);
                q = q + 8;
                consumed = consumed + 8;
            }
            if file.header_start == 0xFFFF_FFFF {
                if q + 8 > dlen as u128 {
                    return Err(ZipError::Io);
                }
                file.header_start = le64_direct(data, q as usize);
                q = q + 8;
                consumed = consumed + 8;
            }
            if record_len as u64 > consumed {
                q = q + (record_len as u64 - consumed) as u128;
            }
            p = q;
        } else {
            p = p + 4 + record_len as u128;
        }
    }
}

/// A single complete ZIP64 extended-information record, with all three
/// classic fields saturated, widens them to the three 64-bit values it
/// carries, in the order uncompressed size, compressed size, header start.
pub proof fn lemma_zip64_extra_field_widening(d: Seq<u8>, u: u64, c: u64, h: u64)
    requires
        d.len() >= 28,
        le16_at(d, 0) == 1,
        le16_at(d, 2) == d.len() - 4,
        u == 0xFFFF_FFFF,
        c == 0xFFFF_FFFF,
        h == 0xFFFF_FFFF,
    ensures
        ef_scan(d, 0, u, c, h) == (
            le64_at(d, 4) as u64,
            le64_at(d, 12) as u64,
            le64_at(d, 20) as u64,
            true,
        ),
{
    assert(ef_scan(d, d.len() as int, le64_at(d, 4) as u64, le64_at(d, 12) as u64, le64_at(d, 20) as u64)
        == (le64_at(d, 4) as u64, le64_at(d, 12) as u64, le64_at(d, 20) as u64, true));
}

} // verus!
