//! The fixed trailer records of the container format: the
//! end-of-central-directory record, and the ZIP64 locator and
//! end-of-central-directory record.

use crate::reader::{le16_at, le16_direct, le32_at, le32_direct, le64_at, le64_direct, ByteReader};
use crate::result::{ZipError, ZipResult};
use vstd::prelude::*;

verus! {

pub const LOCAL_FILE_HEADER_SIGNATURE: u32 = 0x04034b50;

pub const CENTRAL_DIRECTORY_HEADER_SIGNATURE: u32 = 0x02014b50;

pub const CENTRAL_DIRECTORY_END_SIGNATURE: u32 = 0x06054b50;

pub const ZIP64_CENTRAL_DIRECTORY_END_SIGNATURE: u32 = 0x06064b50;

pub const ZIP64_CENTRAL_DIRECTORY_END_LOCATOR_SIGNATURE: u32 = 0x07064b50;

/// The classic end-of-central-directory record.
#[derive(Clone, Debug)]
pub struct CentralDirectoryEnd {
    pub disk_number: u16,
    pub disk_with_central_directory: u16,
    pub number_of_files_on_this_disk: u16,
    pub number_of_files: u16,
    pub central_directory_size: u32,
    pub central_directory_offset: u32,
    pub zip_file_comment: Vec<u8>,
}

/// A complete record can be read at `p`: signature present and the declared
/// comment fits in the remaining bytes.
pub open spec fn cde_parse_ok(s: Seq<u8>, p: int) -> bool {
    &&& 0 <= p
    &&& p + 22 <= s.len()
    &&& le32_at(s, p) == CENTRAL_DIRECTORY_END_SIGNATURE
    &&& p + 22 + le16_at(s, p + 20) <= s.len()
}

/// The record's fields, read little-endian from `s` at `p`.
pub open spec fn cde_fields_match(s: Seq<u8>, p: int, f: CentralDirectoryEnd) -> bool {
    &&& f.disk_number as int == le16_at(s, p + 4)
    &&& f.disk_with_central_directory as int == le16_at(s, p + 6)
    &&& f.number_of_files_on_this_disk as int == le16_at(s, p + 8)
    &&& f.number_of_files as int == le16_at(s, p + 10)
    &&& f.central_directory_size as int == le32_at(s, p + 12)
    &&& f.central_directory_offset as int == le32_at(s, p + 16)
    &&& f.zip_file_comment@ == s.subrange(p + 22, p + 22 + le16_at(s, p + 20))
}

/// `p` starts an end-of-central-directory record whose comment runs exactly
/// to the end of the source — the shape the backward search looks for.
pub open spec fn eocd_candidate(s: Seq<u8>, p: int) -> bool {
    &&& 0 <= p
    &&& p + 22 <= s.len()
    &&& le32_at(s, p) == CENTRAL_DIRECTORY_END_SIGNATURE
    &&& p + 22 + le16_at(s, p + 20) == s.len()
}

/// The backward scan from `p` down to `lo`: the highest candidate position,
/// if any.
pub open spec fn eocd_search(s: Seq<u8>, p: int, lo: int) -> Option<int>
    decreases p - lo + 1,
{
    if p < lo {
        None
    } else if eocd_candidate(s, p) {
        Some(p)
    } else {
        eocd_search(s, p - 1, lo)
    }
}

/// The lowest position the backward scan may reach: far enough back for the
/// largest possible trailing comment.
pub open spec fn eocd_window_low(s: Seq<u8>) -> int {
    if s.len() >= 22 + 0xFFFF {
        s.len() - 22 - 0xFFFF
    } else {
        0
    }
}

/// Where the end-of-central-directory record is found, scanning backward
/// from the end of the source.
pub open spec fn spec_find_eocd(s: Seq<u8>) -> Option<int> {
    if s.len() < 22 {
        None
    } else {
        eocd_search(s, s.len() - 22, eocd_window_low(s))
    }
}

impl CentralDirectoryEnd {
    /// Parses the record at the current position.
    pub fn parse(reader: &mut ByteReader) -> (r: ZipResult<CentralDirectoryEnd>)
        ensures
            final(reader).data@ == old(reader).data@,
            match r {
                Ok(f) => {
                    &&& cde_parse_ok(old(reader).data@, old(reader).pos as int)
                    &&& cde_fields_match(old(reader).data@, old(reader).pos as int, f)
                    &&& final(reader).pos == old(reader).pos + 22 + le16_at(
                        old(reader).data@,
                        old(reader).pos + 20,
                    )
                },
                Err(e) => {
                    &&& !cde_parse_ok(old(reader).data@, old(reader).pos as int)
                    &&& if old(reader).pos + 4 <= old(reader).data@.len() && le32_at(
                        old(reader).data@,
                        old(reader).pos as int,
                    ) != CENTRAL_DIRECTORY_END_SIGNATURE {
                        e is InvalidArchive
                    } else {
                        e is Io
                    }
                },
            },
    {
        let magic = match reader.read_u32() {
            Ok(v) => v,
            Err(e) => return Err(e),
        };
        if magic != CENTRAL_DIRECTORY_END_SIGNATURE {
            return Err(ZipError::InvalidArchive("Invalid digital signature header"));
        }
        let disk_number = match reader.read_u16() {
            Ok(v) => v,
            Err(e) => return Err(e),
        };
        let disk_with_central_directory = match reader.read_u16() {
            Ok(v) => v,
            Err(e) => return Err(e),
        };
        let number_of_files_on_this_disk = match reader.read_u16() {
            Ok(v) => v,
            Err(e) => return Err(e),
        };
        let number_of_files = match reader.read_u16() {
            Ok(v) => v,
            Err(e) => return Err(e),
        };
        let central_directory_size = match reader.read_u32() {
            Ok(v) => v,
            Err(e) => return Err(e),
        };
        let central_directory_offset = match reader.read_u32() {
            Ok(v) => v,
            Err(e) => return Err(e),
        };
        let zip_file_comment_length = match reader.read_u16() {
            Ok(v) => v,
            Err(e) => return Err(e),
        };
        let zip_file_comment = match reader.read_exact(zip_file_comment_length as usize) {
            Ok(v) => v,
            Err(e) => return Err(e),
        };
        Ok(CentralDirectoryEnd {
            disk_number,
            disk_with_central_directory,
            number_of_files_on_this_disk,
            number_of_files,
            central_directory_size,
            central_directory_offset,
            zip_file_comment,
        })
    }

    /// Scans backward from the end of the source for the record, allowing
    /// for a trailing comment of up to `0xFFFF` bytes, and parses it where
    /// found; the found position is returned beside the record.
    pub fn find_and_parse(reader: &mut ByteReader) -> (r: ZipResult<(CentralDirectoryEnd, u64)>)
        ensures
            final(reader).data@ == old(reader).data@,
            match r {
                Ok((f, p)) => {
                    &&& spec_find_eocd(old(reader).data@) == Some(p as int)
                    &&& eocd_candidate(old(reader).data@, p as int)
                    &&& cde_fields_match(old(reader).data@, p as int, f)
                },
                Err(e) => e is InvalidArchive && spec_find_eocd(old(reader).data@) is None,
            },
    {
        let ghost s = reader.data@;
        let dlen: usize = reader.data.len();
        if dlen < 22 {
            return Err(ZipError::InvalidArchive("Invalid zip header"));
        }
        let lo: usize = if dlen >= 22 + 0xFFFF {
            dlen - 22 - 0xFFFF
        } else {
            0
        };
        let mut p: usize = dlen - 22;
        loop
            invariant
                s == old(reader).data@,
                reader.data@ == s,
                dlen == s.len(),
                22 <= dlen,
                lo == eocd_window_low(s),
                lo <= p <= dlen - 22,
                eocd_search(s, s.len() - 22, lo as int) == eocd_search(s, p as int, lo as int),
            decreases p,
        {
            let sig = le32_direct(&reader.data, p);
            if sig == CENTRAL_DIRECTORY_END_SIGNATURE {
                let clen = le16_direct(&reader.data, p + 20);
                if clen as usize == dlen - p - 22 {
                    proof {
                        assert(eocd_candidate(s, p as int));
                        assert(eocd_search(s, p as int, lo as int) == Some(p as int));
                    }
                    reader.seek_to(p as u64);
                    let f = match Self::parse(reader) {
                        Ok(f) => f,
                        Err(e) => return Err(e),
                    };
                    return Ok((f, p as u64));
                }
            }
            proof {
                assert(!eocd_candidate(s, p as int));
                assert(eocd_search(s, p as int, lo as int) == eocd_search(s, p - 1, lo as int));
            }
            if p == lo {
                proof {
                    assert(eocd_search(s, lo - 1, lo as int) is None);
                }
                return Err(ZipError::InvalidArchive("Could not find central directory end"));
            }
            p = p - 1;
        }
    }
}

/// The ZIP64 locator record, sitting immediately before the classic
/// end-of-central-directory record when present.
#[derive(Clone, Copy, Debug)]
pub struct Zip64CentralDirectoryEndLocator {
    pub disk_with_central_directory: u32,
    pub end_of_central_directory_offset: u64,
    pub number_of_disks: u32,
}

pub open spec fn z64_locator_parse_ok(s: Seq<u8>, p: int) -> bool {
    &&& 0 <= p
    &&& p + 20 <= s.len()
    &&& le32_at(s, p) == ZIP64_CENTRAL_DIRECTORY_END_LOCATOR_SIGNATURE
}

pub open spec fn z64_locator_fields_match(
    s: Seq<u8>,
    p: int,
    l: Zip64CentralDirectoryEndLocator,
) -> bool {
    &&& l.disk_with_central_directory as int == le32_at(s, p + 4)
    &&& l.end_of_central_directory_offset as int == le64_at(s, p + 8)
    &&& l.number_of_disks as int == le32_at(s, p + 16)
}

impl Zip64CentralDirectoryEndLocator {
    /// Parses the locator at the current position.
    pub fn parse(reader: &mut ByteReader) -> (r: ZipResult<Zip64CentralDirectoryEndLocator>)
        ensures
            final(reader).data@ == old(reader).data@,
            match r {
                Ok(l) => {
                    &&& z64_locator_parse_ok(old(reader).data@, old(reader).pos as int)
                    &&& z64_locator_fields_match(old(reader).data@, old(reader).pos as int, l)
                    &&& final(reader).pos == old(reader).pos + 20
                },
                Err(e) => {
                    &&& !z64_locator_parse_ok(old(reader).data@, old(reader).pos as int)
                    &&& if old(reader).pos + 4 <= old(reader).data@.len() && le32_at(
                        old(reader).data@,
                        old(reader).pos as int,
                    ) != ZIP64_CENTRAL_DIRECTORY_END_LOCATOR_SIGNATURE {
                        e is InvalidArchive
                    } else {
                        e is Io
                    }
                },
            },
    {
        let magic = match reader.read_u32() {
            Ok(v) => v,
            Err(e) => return Err(e),
        };
        if magic != ZIP64_CENTRAL_DIRECTORY_END_LOCATOR_SIGNATURE {
            return Err(ZipError::InvalidArchive("Invalid zip64 locator digital signature header"));
        }
        let disk_with_central_directory = match reader.read_u32() {
            Ok(v) => v,
            Err(e) => return Err(e),
        };
        let end_of_central_directory_offset = match reader.read_u64() {
            Ok(v) => v,
            Err(e) => return Err(e),
        };
        let number_of_disks = match reader.read_u32() {
            Ok(v) => v,
            Err(e) => return Err(e),
        };
        Ok(Zip64CentralDirectoryEndLocator {
            disk_with_central_directory,
            end_of_central_directory_offset,
            number_of_disks,
        })
    }
}

/// The ZIP64 end-of-central-directory record.
#[derive(Clone, Copy, Debug)]
pub struct Zip64CentralDirectoryEnd {
    pub version_made_by: u16,
    pub version_needed_to_extract: u16,
    pub disk_number: u32,
    pub disk_with_central_directory: u32,
    pub number_of_files_on_this_disk: u64,
    pub number_of_files: u64,
    pub central_directory_size: u64,
    pub central_directory_offset: u64,
}

pub open spec fn z64_fields_match(s: Seq<u8>, p: int, f: Zip64CentralDirectoryEnd) -> bool {
    &&& f.version_made_by as int == le16_at(s, p + 12)
    &&& f.version_needed_to_extract as int == le16_at(s, p + 14)
    &&& f.disk_number as int == le32_at(s, p + 16)
    &&& f.disk_with_central_directory as int == le32_at(s, p + 20)
    &&& f.number_of_files_on_this_disk as int == le64_at(s, p + 24)
    &&& f.number_of_files as int == le64_at(s, p + 32)
    &&& f.central_directory_size as int == le64_at(s, p + 40)
    &&& f.central_directory_offset as int == le64_at(s, p + 48)
}

/// The forward scan from `p` up to `hi`: the lowest position carrying the
/// ZIP64 end-of-central-directory signature, if any.
pub open spec fn z64_search(s: Seq<u8>, p: int, hi: int) -> Option<int>
    decreases hi - p + 1,
{
    if p > hi {
        None
    } else if le32_at(s, p) == ZIP64_CENTRAL_DIRECTORY_END_SIGNATURE {
        Some(p)
    } else {
        z64_search(s, p + 1, hi)
    }
}

impl Zip64CentralDirectoryEnd {
    /// Searches forward from the position the locator recorded, up to the
    /// given bound, for the record's signature; the distance between the
    /// recorded and the found position — the archive's prepended-bytes
    /// offset — is returned beside the record.
    ///
    /// The search runs forward because the recorded position is itself
    /// skewed by the very offset being discovered.
    pub fn find_and_parse(
        reader: &mut ByteReader,
        nominal_offset: u64,
        search_upper_bound: u64,
    ) -> (r: ZipResult<(Zip64CentralDirectoryEnd, u64)>)
        requires
            search_upper_bound + 56 <= old(reader).data@.len(),
        ensures
            final(reader).data@ == old(reader).data@,
            match r {
                Ok((f, off)) => {
                    &&& z64_search(
                        old(reader).data@,
                        nominal_offset as int,
                        search_upper_bound as int,
                    ) == Some(nominal_offset + off)
                    &&& z64_fields_match(old(reader).data@, nominal_offset + off, f)
                },
                Err(e) => e is InvalidArchive && z64_search(
                    old(reader).data@,
                    nominal_offset as int,
                    search_upper_bound as int,
                ) is None,
            },
    {
        let ghost s = reader.data@;
        if nominal_offset > search_upper_bound {
            return Err(ZipError::InvalidArchive("Could not find ZIP64 central directory end"));
        }
        let mut p: u64 = nominal_offset;
        loop
            invariant
                s == old(reader).data@,
                reader.data@ == s,
                search_upper_bound + 56 <= s.len(),
                nominal_offset <= p <= search_upper_bound,
                z64_search(s, nominal_offset as int, search_upper_bound as int) == z64_search(
                    s,
                    p as int,
                    search_upper_bound as int,
                ),
            decreases search_upper_bound - p,
        {
            proof {
                vstd::std_specs::vec::axiom_spec_len(&reader.data);
            }
            let sig = le32_direct(&reader.data, p as usize);
            if sig == ZIP64_CENTRAL_DIRECTORY_END_SIGNATURE {
                let i = p as usize;
                let version_made_by = le16_direct(&reader.data, i + 12);
                let version_needed_to_extract = le16_direct(&reader.data, i + 14);
                let disk_number = le32_direct(&reader.data, i + 16);
                let disk_with_central_directory = le32_direct(&reader.data, i + 20);
                let number_of_files_on_this_disk = le64_direct(&reader.data, i + 24);
                let number_of_files = le64_direct(&reader.data, i + 32);
                let central_directory_size = le64_direct(&reader.data, i + 40);
                let central_directory_offset = le64_direct(&reader.data, i + 48);
                reader.seek_to(p + 56);
                return Ok(
                    (
                        Zip64CentralDirectoryEnd {
                            version_made_by,
                            version_needed_to_extract,
                            disk_number,
                            disk_with_central_directory,
                            number_of_files_on_this_disk,
                            number_of_files,
                            central_directory_size,
                            central_directory_offset,
                        },
                        p - nominal_offset,
                    ),
                );
            }
            proof {
                assert(z64_search(s, p as int, search_upper_bound as int) == z64_search(
                    s,
                    p + 1,
                    search_upper_bound as int,
                ));
            }
            if p == search_upper_bound {
                proof {
                    assert(z64_search(s, p + 1, search_upper_bound as int) is None);
                }
                return Err(ZipError::InvalidArchive("Could not find ZIP64 central directory end"));
            }
            p = p + 1;
        }
    }
}

} // verus!
