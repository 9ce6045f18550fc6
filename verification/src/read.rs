//! Reading a ZIP archive: the archive object, per-entry handles, and the
//! sequential no-seek reader.

use crate::checksum::{crc32_bytes, crc32_of};
use crate::compression::{is_supported_method, spec_method_from_u16, CompressionMethod};
use crate::decompress::{bunzip, bunzip_of, bunzip_ok, inflate, inflate_of, inflate_ok};
use crate::extra::{ef_scan, parse_extra_field};
use crate::reader::{le16_at, le16_direct, le32_at, le32_direct, le64_at, ByteReader};
use crate::records::{
    CentralDirectoryEnd, Zip64CentralDirectoryEnd, Zip64CentralDirectoryEndLocator,
    CENTRAL_DIRECTORY_HEADER_SIGNATURE, LOCAL_FILE_HEADER_SIGNATURE,
    ZIP64_CENTRAL_DIRECTORY_END_LOCATOR_SIGNATURE,
};
use crate::records::{spec_find_eocd, z64_search};
use crate::result::{err_kind, unsupported_zip_error, FailKind, ZipError, ZipResult};
use crate::text::{decode_text, sanitize_name, spec_decode_text, spec_sanitized};
use crate::types::{clone_bytes, spec_datetime_from_msdos, spec_system_from_u8, DateTime,
    EntryModel, System, ZipFileData};
use vstd::prelude::*;
use vstd::string::StrSliceExecFns;

verus! {

/// The decompressed, checksum-checked byte stream of one entry, with the
/// read position into it.
///
/// `failed` records that the decompression collaborator rejected the raw
/// bytes; every read then reports the failure.  `crc_ok` records whether
/// the checksum over the whole content matches the declared one; it is
/// only consulted once reading reaches the end.
#[derive(Debug)]
pub struct ZipFileReader {
    pub content: Vec<u8>,
    pub pos: usize,
    pub crc_ok: bool,
    pub failed: bool,
}

/// What a freshly built pipeline promises about its content, given the
/// declared method, checksum and the raw stored bytes.
pub open spec fn pipeline_spec(
    m: CompressionMethod,
    declared_crc: u32,
    raw: Seq<u8>,
    zr: ZipFileReader,
) -> bool {
    &&& match m {
        CompressionMethod::Stored => !zr.failed && zr.content@ == raw,
        CompressionMethod::Deflated => (zr.failed <==> !inflate_ok(raw)) && (!zr.failed
            ==> zr.content@ == inflate_of(raw)),
        CompressionMethod::Bzip2 => (zr.failed <==> !bunzip_ok(raw)) && (!zr.failed
            ==> zr.content@ == bunzip_of(raw)),
        CompressionMethod::Unsupported(_) => false,
    }
    &&& !zr.failed ==> (zr.crc_ok <==> crc32_of(zr.content@) == declared_crc)
    &&& zr.failed ==> zr.content@.len() == 0
}

/// Maps a declared compression method to a pipeline over the raw bytes,
/// wrapped in the checksum comparison; an unrecognized method fails here,
/// before any byte is delivered.
pub fn make_reader(
    compression_method: CompressionMethod,
    crc32: u32,
    data: Vec<u8>,
) -> (r: ZipResult<ZipFileReader>)
    ensures
        match r {
            Ok(zr) => is_supported_method(compression_method) && zr.pos == 0 && pipeline_spec(
                compression_method,
                crc32,
                data@,
                zr,
            ),
            Err(e) => !is_supported_method(compression_method) && e matches
                ZipError::UnsupportedArchive(_),
        },
{
    match compression_method {
        CompressionMethod::Stored => {
            let crc_ok = crc32_bytes(&data) == crc32;
            Ok(ZipFileReader { content: data, pos: 0, crc_ok, failed: false })
        },
        CompressionMethod::Deflated => match inflate(&data) {
            Some(v) => {
                let crc_ok = crc32_bytes(&v) == crc32;
                Ok(ZipFileReader { content: v, pos: 0, crc_ok, failed: false })
            },
            None => Ok(ZipFileReader { content: Vec::new(), pos: 0, crc_ok: false, failed: true }),
        },
        CompressionMethod::Bzip2 => match bunzip(&data) {
            Some(v) => {
                let crc_ok = crc32_bytes(&v) == crc32;
                Ok(ZipFileReader { content: v, pos: 0, crc_ok, failed: false })
            },
            None => Ok(ZipFileReader { content: Vec::new(), pos: 0, crc_ok: false, failed: true }),
        },
        CompressionMethod::Unsupported(_) => unsupported_zip_error(
            "Compression method not supported",
        ),
    }
}

/// True when an entry name marks a directory: it ends in a separator.
pub open spec fn spec_is_dir(name: Seq<char>) -> bool {
    name.len() > 0 && (name.last() == '/' || name.last() == '\\')
}

pub const S_IFDIR: u32 = 0o0040000;

pub const S_IFREG: u32 = 0o0100000;

/// The Unix mode bits an entry's external attributes encode, if any.
pub open spec fn spec_unix_mode(m: EntryModel) -> Option<u32> {
    if m.external_attributes == 0 {
        None
    } else {
        match m.system {
            System::Unix => Some(m.external_attributes >> 16u32),
            System::Dos => {
                let base = if m.external_attributes & 0x10 == 0x10 {
                    S_IFDIR | 0o0775
                } else {
                    S_IFREG | 0o0664
                };
                if m.external_attributes & 0x01 == 0x01 {
                    Some(base & 0o0555)
                } else {
                    Some(base)
                }
            },
            System::Unknown => None,
        }
    }
}

/// An open entry: its metadata and its decompressed byte stream.
///
/// A handle from random access carries a copy of the archive's entry; a
/// handle from the streaming reader owns the only copy there is.  Either
/// way the underlying source is already positioned past the entry when the
/// handle is handed out, so releasing a handle needs no further work.
#[derive(Debug)]
pub struct ZipFile {
    pub data: ZipFileData,
    pub reader: ZipFileReader,
}

impl ZipFile {
    /// Get the version of the file
    pub fn version_made_by(&self) -> (r: (u8, u8))
        ensures
            r.0 == self.data.version_made_by / 10,
            r.1 == self.data.version_made_by % 10,
    {
        (self.data.version_made_by / 10, self.data.version_made_by % 10)
    }

    /// Get the name of the file
    pub fn name(&self) -> (r: &str)
        ensures
            r@ == self.data@.file_name,
    {
        self.data.file_name.as_str()
    }

    /// Get the name of the file, in the raw (internal) byte representation.
    pub fn name_raw(&self) -> (r: &[u8])
        ensures
            r@ == self.data@.file_name_raw,
    {
        self.data.file_name_raw.as_slice()
    }

    /// Get the name of the file in a sanitized form: truncated at the first
    /// NUL byte, without a leading `/`, and without `.` or `..` parts.
    pub fn sanitized_name(&self) -> (r: String)
        ensures
            r@ == spec_sanitized(self.data@.file_name),
    {
        sanitize_name(self.data.file_name.as_str())
    }

    /// Get the comment of the file
    pub fn comment(&self) -> (r: &str)
        ensures
            r@ == self.data@.file_comment,
    {
        self.data.file_comment.as_str()
    }

    /// Get the compression method used to store the file
    pub fn compression(&self) -> (r: CompressionMethod)
        ensures
            r == self.data.compression_method,
    {
        self.data.compression_method
    }

    /// Get the size of the file in the archive
    pub fn compressed_size(&self) -> (r: u64)
        ensures
            r == self.data.compressed_size,
    {
        self.data.compressed_size
    }

    /// Get the size of the file when uncompressed
    pub fn size(&self) -> (r: u64)
        ensures
            r == self.data.uncompressed_size,
    {
        self.data.uncompressed_size
    }

    /// Get the time the file was last modified
    pub fn last_modified(&self) -> (r: DateTime)
        ensures
            r == self.data.last_modified_time,
    {
        self.data.last_modified_time
    }

    /// Returns whether the file is actually a directory
    pub fn is_dir(&self) -> (r: bool)
        ensures
            r == spec_is_dir(self.data@.file_name),
    {
        let s = self.data.file_name.as_str();
        let n = s.unicode_len();
        if n == 0 {
            false
        } else {
            let c = s.get_char(n - 1);
            c == '/' || c == '\\'
        }
    }

    /// Returns whether the file is a regular file
    pub fn is_file(&self) -> (r: bool)
        ensures
            r == !spec_is_dir(self.data@.file_name),
    {
        !self.is_dir()
    }

    /// Get unix mode for the file
    pub fn unix_mode(&self) -> (r: Option<u32>)
        ensures
            r == spec_unix_mode(self.data@),
    {
        if self.data.external_attributes == 0 {
            return None;
        }
        match self.data.system {
            System::Unix => Some(self.data.external_attributes >> 16u32),
            System::Dos => {
                let mut mode: u32 = if 0x10 == (self.data.external_attributes & 0x10) {
                    S_IFDIR | 0o0775
                } else {
                    S_IFREG | 0o0664
                };
                if 0x01 == (self.data.external_attributes & 0x01) {
                    mode = mode & 0o0555;
                }
                Some(mode)
            },
            System::Unknown => None,
        }
    }

    /// Get the CRC32 hash of the original file
    pub fn crc32(&self) -> (r: u32)
        ensures
            r == self.data.crc32,
    {
        self.data.crc32
    }

    /// Get the starting offset of the data of the compressed file
    pub fn data_start(&self) -> (r: u64)
        ensures
            r == self.data.data_start,
    {
        self.data.data_start
    }

    /// Reads up to `n` bytes of the entry's decompressed content.
    ///
    /// Bytes come back in order; a read that starts at the end of the
    /// content is the moment the checksum verdict is delivered — a mismatch
    /// is reported there and never earlier.  When the decompression
    /// collaborator rejected the raw bytes, every read of at least one byte
    /// reports [`ZipError::Io`].
    pub fn read(&mut self, n: usize) -> (r: ZipResult<Vec<u8>>)
        ensures
            final(self).data@ == old(self).data@,
            final(self).reader.content@ == old(self).reader.content@,
            final(self).reader.crc_ok == old(self).reader.crc_ok,
            final(self).reader.failed == old(self).reader.failed,
            match r {
                Ok(chunk) => {
                    let content = old(self).reader.content@;
                    let p = old(self).reader.pos as int;
                    if n == 0 {
                        chunk@ == Seq::<u8>::empty() && final(self).reader.pos == old(self).reader.pos
                    } else {
                        &&& !old(self).reader.failed
                        &&& if p < content.len() {
                            let end = if p + n <= content.len() {
                                p + n
                            } else {
                                content.len() as int
                            };
                            chunk@ == content.subrange(p, end) && final(self).reader.pos == end
                        } else {
                            old(self).reader.crc_ok && chunk@ == Seq::<u8>::empty()
                                && final(self).reader.pos == old(self).reader.pos
                        }
                    }
                },
                Err(e) => {
                    &&& n > 0
                    &&& final(self).reader.pos == old(self).reader.pos
                    &&& if old(self).reader.failed {
                        e is Io
                    } else {
                        e is Crc32Mismatch && !old(self).reader.crc_ok
                            && old(self).reader.pos >= old(self).reader.content@.len()
                    }
                },
            },
    {
        if n == 0 {
            return Ok(Vec::new());
        }
        if self.reader.failed {
            return Err(ZipError::Io);
        }
        let len = self.reader.content.len();
        if self.reader.pos < len {
            let end = if n <= len - self.reader.pos {
                self.reader.pos + n
            } else {
                len
            };
            let chunk = vstd::slice::slice_to_vec(
                vstd::slice::slice_subrange(self.reader.content.as_slice(), self.reader.pos, end),
            );
            self.reader.pos = end;
            Ok(chunk)
        } else {
            if self.reader.crc_ok {
                Ok(Vec::new())
            } else {
                Err(ZipError::Crc32Mismatch)
            }
        }
    }
}

/// How far one central-directory record at `p` reaches: the fixed block
/// plus the three declared variable-length blocks.
pub open spec fn cd_entry_size(s: Seq<u8>, p: int) -> int {
    46 + le16_at(s, p + 28) + le16_at(s, p + 30) + le16_at(s, p + 32)
}

/// What parsing one central-directory record at `p` yields: the entry's
/// metadata with `archive_offset` already folded into its header start, or
/// the failure class aborting the open.
pub open spec fn spec_cd_entry(s: Seq<u8>, p: int, archive_offset: u64) -> Result<
    EntryModel,
    FailKind,
> {
    if p + 4 > s.len() {
        Err(FailKind::Io)
    } else if le32_at(s, p) != CENTRAL_DIRECTORY_HEADER_SIGNATURE {
        Err(FailKind::Invalid)
    } else if p + 46 > s.len() {
        Err(FailKind::Io)
    } else {
        let nlen = le16_at(s, p + 28);
        let elen = le16_at(s, p + 30);
        let clen = le16_at(s, p + 32);
        if p + 46 + nlen > s.len() {
            Err(FailKind::Io)
        } else if p + 46 + nlen + elen > s.len() {
            Err(FailKind::Io)
        } else if p + 46 + nlen + elen + clen > s.len() {
            Err(FailKind::Io)
        } else {
            let flags = le16_at(s, p + 8);
            let is_utf8 = (flags / 0x800) % 2 == 1;
            let name_raw = s.subrange(p + 46, p + 46 + nlen);
            let extra = s.subrange(p + 46 + nlen, p + 46 + nlen + elen);
            let comment_raw = s.subrange(p + 46 + nlen + elen, p + 46 + nlen + elen + clen);
            let scan = ef_scan(
                extra,
                0,
                le32_at(s, p + 24) as u64,
                le32_at(s, p + 20) as u64,
                le32_at(s, p + 42) as u64,
            );
            if scan.2 + archive_offset > u64::MAX {
                Err(FailKind::Invalid)
            } else {
                Ok(
                    EntryModel {
                        system: spec_system_from_u8((le16_at(s, p + 4) / 0x100) as u8),
                        version_made_by: (le16_at(s, p + 4) % 0x100) as u8,
                        encrypted: flags % 2 == 1,
                        compression_method: spec_method_from_u16(le16_at(s, p + 10) as u16),
                        last_modified_time: spec_datetime_from_msdos(
                            le16_at(s, p + 14) as u16,
                            le16_at(s, p + 12) as u16,
                        ),
                        crc32: le32_at(s, p + 16) as u32,
                        compressed_size: scan.1,
                        uncompressed_size: scan.0,
                        file_name: spec_decode_text(name_raw, is_utf8),
                        file_name_raw: name_raw,
                        file_comment: spec_decode_text(comment_raw, is_utf8),
                        header_start: (scan.2 + archive_offset) as u64,
                        data_start: 0,
                        external_attributes: le32_at(s, p + 38) as u32,
                    },
                )
            }
        }
    }
}

/// Parses one central-directory record at the current position into entry
/// metadata, correcting the recorded header start by `archive_offset`.
pub fn central_header_to_zip_file(reader: &mut ByteReader, archive_offset: u64) -> (r: ZipResult<
    ZipFileData,
>)
    ensures
        final(reader).data@ == old(reader).data@,
        final(reader).pos >= old(reader).pos,
        match r {
            Ok(f) => {
                &&& spec_cd_entry(old(reader).data@, old(reader).pos as int, archive_offset)
                    == Ok::<EntryModel, FailKind>(f@)
                &&& final(reader).pos == old(reader).pos + cd_entry_size(
                    old(reader).data@,
                    old(reader).pos as int,
                )
            },
            Err(e) => spec_cd_entry(old(reader).data@, old(reader).pos as int, archive_offset)
                == Err::<EntryModel, FailKind>(err_kind(e)),
        },
{
    let ghost s = reader.data@;
    let ghost p = reader.pos as int;
    let signature = match reader.read_u32() {
        Ok(v) => v,
        Err(e) => return Err(e),
    };
    if signature != CENTRAL_DIRECTORY_HEADER_SIGNATURE {
        return Err(ZipError::InvalidArchive("Invalid Central Directory header"));
    }
    let version_made_by = match reader.read_u16() {
        Ok(v) => v,
        Err(e) => return Err(e),
    };
    let _version_to_extract = match reader.read_u16() {
        Ok(v) => v,
        Err(e) => return Err(e),
    };
    let flags = match reader.read_u16() {
        Ok(v) => v,
        Err(e) => return Err(e),
    };
    let encrypted = flags % 2 == 1;
    let is_utf8 = (flags / 0x800) % 2 == 1;
    let compression_method = match reader.read_u16() {
        Ok(v) => v,
        Err(e) => return Err(e),
    };
    let last_mod_time = match reader.read_u16() {
        Ok(v) => v,
        Err(e) => return Err(e),
    };
    let last_mod_date = match reader.read_u16() {
        Ok(v) => v,
        Err(e) => return Err(e),
    };
    let crc32 = match reader.read_u32() {
        Ok(v) => v,
        Err(e) => return Err(e),
    };
    let compressed_size = match reader.read_u32() {
        Ok(v) => v,
        Err(e) => return Err(e),
    };
    let uncompressed_size = match reader.read_u32() {
        Ok(v) => v,
        Err(e) => return Err(e),
    };
    let file_name_length = match reader.read_u16() {
        Ok(v) => v,
        Err(e) => return Err(e),
    };
    let extra_field_length = match reader.read_u16() {
        Ok(v) => v,
        Err(e) => return Err(e),
    };
    let file_comment_length = match reader.read_u16() {
        Ok(v) => v,
        Err(e) => return Err(e),
    };
    let _disk_number_field = match reader.read_u16() {
        Ok(v) => v,
        Err(e) => return Err(e),
    };
    let _internal_file_attributes = match reader.read_u16() {
        Ok(v) => v,
        Err(e) => return Err(e),
    };
    let external_file_attributes = match reader.read_u32() {
        Ok(v) => v,
        Err(e) => return Err(e),
    };
    let offset = match reader.read_u32() {
        Ok(v) => v,
        Err(e) => return Err(e),
    };
    let file_name_raw = match reader.read_exact(file_name_length as usize) {
        Ok(v) => v,
        Err(e) => return Err(e),
    };
    let extra_field = match reader.read_exact(extra_field_length as usize) {
        Ok(v) => v,
        Err(e) => return Err(e),
    };
    let file_comment_raw = match reader.read_exact(file_comment_length as usize) {
        Ok(v) => v,
        Err(e) => return Err(e),
    };
    let file_name = decode_text(&file_name_raw, is_utf8);
    let file_comment = decode_text(&file_comment_raw, is_utf8);

    let mut result = ZipFileData {
        system: System::from_u8((version_made_by / 0x100) as u8),
        version_made_by: (version_made_by % 0x100) as u8,
        encrypted,
        compression_method: CompressionMethod::from_u16(compression_method),
        last_modified_time: DateTime::from_msdos(last_mod_date, last_mod_time),
        crc32,
        compressed_size: compressed_size as u64,
        uncompressed_size: uncompressed_size as u64,
        file_name,
        file_name_raw,
        file_comment,
        header_start: offset as u64,
        data_start: 0,
        external_attributes: external_file_attributes,
    };

    match parse_extra_field(&mut result, &extra_field) {
        Ok(_) => (),
        Err(ZipError::Io) => (),
        Err(e) => return Err(e),
    }

    // Account for shifted zip offsets.
    if result.header_start > u64::MAX - archive_offset {
        return Err(ZipError::InvalidArchive("Invalid header offset"));
    }
    result.header_start = result.header_start + archive_offset;

    proof {
        assert(spec_cd_entry(s, p, archive_offset) == Ok::<EntryModel, FailKind>(result@)) by {
            assert(spec_cd_entry(s, p, archive_offset) matches Ok(m) && m =~= result@);
        }
    }
    Ok(result)
}

} // verus!

verus! {

/// The mathematical image of a sequence of parsed entries.
pub open spec fn models_of(files: Seq<ZipFileData>) -> Seq<EntryModel> {
    files.map_values(|f: ZipFileData| f@)
}

pub proof fn lemma_models_push(files: Seq<ZipFileData>, f: ZipFileData)
    ensures
        models_of(files.push(f)) == models_of(files).push(f@),
{
    assert(models_of(files.push(f)) =~= models_of(files).push(f@));
}

pub proof fn lemma_models_update(files: Seq<ZipFileData>, i: int, f: ZipFileData)
    requires
        0 <= i < files.len(),
    ensures
        models_of(files.update(i, f)) == models_of(files).update(i, f@),
{
    assert(models_of(files.update(i, f)) =~= models_of(files).update(i, f@));
}

/// What the offset resolution yields, given the source and the position of
/// the end-of-central-directory record: the archive's prepended-bytes
/// offset, the directory's absolute start, and the entry count — or the
/// failure class.
///
/// Without a ZIP64 locator the offset is the discrepancy between the
/// record's physical position and the directory size and offset it
/// records; with one, the offset falls out of the forward search for the
/// ZIP64 end-of-central-directory record.
pub open spec fn spec_counts(s: Seq<u8>, p: int) -> Result<(u64, u64, u64), FailKind> {
    let has_locator = p >= 20 && le32_at(s, p - 20)
        == ZIP64_CENTRAL_DIRECTORY_END_LOCATOR_SIGNATURE;
    if !has_locator {
        let cds = le32_at(s, p + 12);
        let cdo = le32_at(s, p + 16);
        if p < cds + cdo {
            Err(FailKind::Invalid)
        } else {
            Ok((((p - cds - cdo) as u64), ((p - cds) as u64), (le16_at(s, p + 8) as u64)))
        }
    } else {
        if le16_at(s, p + 4) != le32_at(s, p - 16) {
            Err(FailKind::Unsupported)
        } else if le32_at(s, p - 4) > 1 {
            Err(FailKind::Unsupported)
        } else if p < 60 {
            Err(FailKind::Invalid)
        } else {
            let nominal = le64_at(s, p - 12);
            match z64_search(s, nominal, p - 60) {
                None => Err(FailKind::Invalid),
                Some(z) => {
                    if le32_at(s, z + 16) != le32_at(s, z + 20) {
                        Err(FailKind::Unsupported)
                    } else if le64_at(s, z + 48) + (z - nominal) > u64::MAX {
                        Err(FailKind::Invalid)
                    } else {
                        Ok(
                            (
                                ((z - nominal) as u64),
                                ((le64_at(s, z + 48) + z - nominal) as u64),
                                (le64_at(s, z + 32) as u64),
                            ),
                        )
                    }
                },
            }
        }
    }
}

/// What parsing `n` consecutive central-directory records starting at `p`
/// yields.
pub open spec fn spec_entries(s: Seq<u8>, p: int, n: nat, archive_offset: u64) -> Result<
    Seq<EntryModel>,
    FailKind,
> decreases n {
    if n == 0 {
        Ok(Seq::empty())
    } else {
        match spec_cd_entry(s, p, archive_offset) {
            Err(k) => Err(k),
            Ok(m) => match spec_entries(s, p + cd_entry_size(s, p), (n - 1) as nat,
                archive_offset) {
                Err(k) => Err(k),
                Ok(rest) => Ok(seq![m] + rest),
            },
        }
    }
}

/// What opening an archive over the bytes `s` yields: the entry models in
/// directory order, the prepended-bytes offset, and the raw comment — or
/// the failure class.
pub open spec fn spec_open(s: Seq<u8>) -> Result<(Seq<EntryModel>, u64, Seq<u8>), FailKind> {
    match spec_find_eocd(s) {
        None => Err(FailKind::Invalid),
        Some(p) => {
            if le16_at(s, p + 4) != le16_at(s, p + 6) {
                Err(FailKind::Unsupported)
            } else {
                match spec_counts(s, p) {
                    Err(k) => Err(k),
                    Ok(t) => match spec_entries(s, t.1 as int, t.2 as nat, t.0) {
                        Err(k) => Err(k),
                        Ok(models) => Ok((models, t.0, s.subrange(p + 22, s.len() as int))),
                    },
                }
            }
        },
    }
}

/// Where an entry's first compressed byte sits: past the local header's
/// fixed block and its own (possibly differing) name and extra lengths.
pub open spec fn spec_local_data_start(s: Seq<u8>, hs: int) -> int {
    hs + 30 + le16_at(s, hs + 26) + le16_at(s, hs + 28)
}

/// What opening one already-parsed entry against the source `s` yields:
/// the resolved data start and the bounds of the raw compressed bytes
/// (capped at the end of the source), or the failure class.
pub open spec fn spec_open_entry(s: Seq<u8>, e: EntryModel) -> Result<(u64, int, int), FailKind> {
    if e.encrypted {
        Err(FailKind::Unsupported)
    } else if e.header_start + 4 > s.len() {
        Err(FailKind::Io)
    } else if le32_at(s, e.header_start as int) != LOCAL_FILE_HEADER_SIGNATURE {
        Err(FailKind::Invalid)
    } else if e.header_start + 30 > s.len() {
        Err(FailKind::Io)
    } else if spec_local_data_start(s, e.header_start as int) > u64::MAX {
        Err(FailKind::Invalid)
    } else if !is_supported_method(e.compression_method) {
        Err(FailKind::Unsupported)
    } else {
        let ds = spec_local_data_start(s, e.header_start as int);
        let lo = if ds <= s.len() {
            ds
        } else {
            s.len() as int
        };
        let hi = if ds + e.compressed_size <= s.len() {
            ds + e.compressed_size
        } else {
            s.len() as int
        };
        Ok((ds as u64, lo, hi))
    }
}

/// Everything `by_index` (and through it `by_name`) promises: how the
/// archive changed, and what the returned handle holds.
pub open spec fn by_index_outcome(
    pre: ZipArchive,
    post: ZipArchive,
    i: int,
    r: ZipResult<ZipFile>,
) -> bool {
    let s = pre.reader.data@;
    &&& match r {
        Ok(zf) => {
            &&& post.reader.data@ == s
            &&& post.offset == pre.offset
            &&& post.comment@ == pre.comment@
            &&& 0 <= i < pre.files@.len()
            &&& spec_open_entry(s, pre.files@[i]@) matches Ok(t) && {
                &&& zf.data@ == (EntryModel { data_start: t.0, ..pre.files@[i]@ })
                &&& models_of(post.files@) == models_of(pre.files@).update(i, zf.data@)
                &&& post.reader.pos == t.0
                &&& pipeline_spec(
                    pre.files@[i]@.compression_method,
                    pre.files@[i]@.crc32,
                    s.subrange(t.1, t.2),
                    zf.reader,
                )
                &&& zf.reader.pos == 0
            }
        },
        Err(e) => {
            &&& post == pre
            &&& if !(0 <= i < pre.files@.len()) {
                e is FileNotFound
            } else {
                spec_open_entry(s, pre.files@[i]@) == Err::<(u64, int, int), FailKind>(err_kind(e))
            }
        },
    }
}

/// The index lookup resolves to: the *last* entry carrying the name, if
/// any — a later duplicate overrides an earlier one.
pub open spec fn spec_last_name_index(entries: Seq<EntryModel>, name: Seq<char>) -> Option<int>
    decreases entries.len(),
{
    if entries.len() == 0 {
        None
    } else if entries.last().file_name == name {
        Some(entries.len() - 1)
    } else {
        spec_last_name_index(entries.drop_last(), name)
    }
}

/// An opened archive: the source, the parsed directory in directory order,
/// the resolved prepended-bytes offset, and the raw trailing comment.
///
/// Cloning yields an independently readable archive with no shared mutable
/// state; only one handle at a time reads through a given archive value.
#[derive(Debug)]
pub struct ZipArchive {
    pub reader: ByteReader,
    pub files: Vec<ZipFileData>,
    pub offset: u64,
    pub comment: Vec<u8>,
}

impl Clone for ZipArchive {
    /// A deep copy: the same bytes, position, entries, offset and comment,
    /// with no mutable state shared with the original.
    fn clone(&self) -> (r: Self)
        ensures
            r.reader.data@ == self.reader.data@,
            r.reader.pos == self.reader.pos,
            models_of(r.files@) == models_of(self.files@),
            r.offset == self.offset,
            r.comment@ == self.comment@,
    {
        let mut files: Vec<ZipFileData> = Vec::new();
        let n = self.files.len();
        for i in 0..n
            invariant
                n == self.files@.len(),
                files@.len() == i,
                forall|j: int| 0 <= j < i ==> (#[trigger] files@[j])@ == self.files@[j]@,
        {
            files.push(self.files[i].clone());
        }
        proof {
            assert forall|j: int| 0 <= j < files@.len() implies models_of(files@)[j] == models_of(
                self.files@,
            )[j] by {
                assert(files@[j]@ == self.files@[j]@);
            }
            assert(models_of(files@) =~= models_of(self.files@));
        }
        ZipArchive {
            reader: self.reader.clone(),
            files,
            offset: self.offset,
            comment: clone_bytes(&self.comment),
        }
    }
}

impl ZipArchive {
    /// Resolves the directory's start, the prepended-bytes offset and the
    /// entry count from the trailer record, probing for a ZIP64 locator at
    /// the fixed distance before it.
    fn get_directory_counts(
        reader: &mut ByteReader,
        footer: &CentralDirectoryEnd,
        cde_start_pos: u64,
    ) -> (r: ZipResult<(u64, u64, u64)>)
        requires
            cde_start_pos + 22 + footer.zip_file_comment@.len() == old(reader).data@.len(),
            crate::records::cde_fields_match(old(reader).data@, cde_start_pos as int, *footer),
        ensures
            final(reader).data@ == old(reader).data@,
            match r {
                Ok(t) => spec_counts(old(reader).data@, cde_start_pos as int) == Ok::<
                    (u64, u64, u64),
                    FailKind,
                >(t),
                Err(e) => spec_counts(old(reader).data@, cde_start_pos as int) == Err::<
                    (u64, u64, u64),
                    FailKind,
                >(err_kind(e)),
            },
    {
        let ghost s = reader.data@;
        let ghost p = cde_start_pos as int;
        let zip64locator: Option<Zip64CentralDirectoryEndLocator> = if cde_start_pos >= 20 {
            reader.seek_to(cde_start_pos - 20);
            match Zip64CentralDirectoryEndLocator::parse(reader) {
                Ok(loc) => Some(loc),
                Err(ZipError::InvalidArchive(_)) => None,
                Err(e) => return Err(e),
            }
        } else {
            None
        };
        match zip64locator {
            None => {
                let cds = footer.central_directory_size as u64;
                let cdo = footer.central_directory_offset as u64;
                if cde_start_pos < cds || cde_start_pos - cds < cdo {
                    return Err(
                        ZipError::InvalidArchive("Invalid central directory size or offset"),
                    );
                }
                let archive_offset = cde_start_pos - cds - cdo;
                let directory_start = cdo + archive_offset;
                Ok((archive_offset, directory_start, footer.number_of_files_on_this_disk as u64))
            },
            Some(locator64) => {
                if footer.disk_number as u32 != locator64.disk_with_central_directory {
                    return unsupported_zip_error(
                        "Support for multi-disk files is not implemented",
                    );
                }
                if locator64.number_of_disks > 1 {
                    return unsupported_zip_error(
                        "Support for multi-disk files is not implemented",
                    );
                }
                if cde_start_pos < 60 {
                    return Err(
                        ZipError::InvalidArchive("File cannot contain ZIP64 central directory end"),
                    );
                }
                let search_upper_bound = cde_start_pos - 60;
                let sixty_four = match Zip64CentralDirectoryEnd::find_and_parse(
                    reader,
                    locator64.end_of_central_directory_offset,
                    search_upper_bound,
                ) {
                    Ok(t) => t,
                    Err(e) => return Err(e),
                };
                let footer64 = sixty_four.0;
                let archive_offset = sixty_four.1;
                if footer64.disk_number != footer64.disk_with_central_directory {
                    return unsupported_zip_error(
                        "Support for multi-disk files is not implemented",
                    );
                }
                if footer64.central_directory_offset > u64::MAX - archive_offset {
                    return Err(
                        ZipError::InvalidArchive("Invalid central directory size or offset"),
                    );
                }
                let directory_start = footer64.central_directory_offset + archive_offset;
                Ok((archive_offset, directory_start, footer64.number_of_files))
            },
        }
    }

    /// Opens an archive over in-memory bytes and parses the whole central
    /// directory.
    #[verifier::loop_isolation(false)]
    pub fn new(data: Vec<u8>) -> (r: ZipResult<ZipArchive>)
        ensures
            match r {
                Ok(a) => {
                    &&& a.reader.data@ == data@
                    &&& spec_open(data@) matches Ok(t) && {
                        &&& models_of(a.files@) == t.0
                        &&& a.offset == t.1
                        &&& a.comment@ == t.2
                    }
                },
                Err(e) => spec_open(data@) == Err::<(Seq<EntryModel>, u64, Seq<u8>), FailKind>(
                    err_kind(e),
                ),
            },
    {
        let ghost s = data@;
        let mut reader = ByteReader::new(data);
        let found = match CentralDirectoryEnd::find_and_parse(&mut reader) {
            Ok(t) => t,
            Err(e) => return Err(e),
        };
        let footer = found.0;
        let cde_start_pos = found.1;
        let ghost p0 = cde_start_pos as int;

        if footer.disk_number != footer.disk_with_central_directory {
            return unsupported_zip_error("Support for multi-disk files is not implemented");
        }

        proof {
            assert(footer.zip_file_comment@.len() == le16_at(s, p0 + 20));
        }
        let counts = match Self::get_directory_counts(&mut reader, &footer, cde_start_pos) {
            Ok(t) => t,
            Err(e) => return Err(e),
        };
        let archive_offset = counts.0;
        let directory_start = counts.1;
        let number_of_files = counts.2;

        let mut files: Vec<ZipFileData> = Vec::new();
        reader.seek_to(directory_start);
        let mut k: u64 = 0;
        proof {
            assert(models_of(files@) + spec_entries(
                s,
                directory_start as int,
                number_of_files as nat,
                archive_offset,
            )->Ok_0 =~= spec_entries(
                s,
                directory_start as int,
                number_of_files as nat,
                archive_offset,
            )->Ok_0);
        }
        while k < number_of_files
            invariant
                reader.data@ == s,
                0 <= k <= number_of_files,
                files@.len() == k,
                match spec_entries(
                    s,
                    reader.pos as int,
                    (number_of_files - k) as nat,
                    archive_offset,
                ) {
                    Ok(rest) => spec_entries(
                        s,
                        directory_start as int,
                        number_of_files as nat,
                        archive_offset,
                    ) == Ok::<Seq<EntryModel>, FailKind>(models_of(files@) + rest),
                    Err(kk) => spec_entries(
                        s,
                        directory_start as int,
                        number_of_files as nat,
                        archive_offset,
                    ) == Err::<Seq<EntryModel>, FailKind>(kk),
                },
            decreases number_of_files - k,
        {
            let ghost pos_before = reader.pos as int;
            let ghost files_before = files@;
            let file = match central_header_to_zip_file(&mut reader, archive_offset) {
                Ok(f) => f,
                Err(e) => return Err(e),
            };
            proof {
                lemma_models_push(files_before, file);
                let m = file@;
                let rest_all = spec_entries(
                    s,
                    pos_before,
                    (number_of_files - k) as nat,
                    archive_offset,
                );
                let rest_next = spec_entries(
                    s,
                    pos_before + cd_entry_size(s, pos_before),
                    (number_of_files - k - 1) as nat,
                    archive_offset,
                );
                if rest_next is Ok {
                    assert(models_of(files_before) + (seq![m] + rest_next->Ok_0) =~= models_of(
                        files_before,
                    ).push(m) + rest_next->Ok_0);
                }
            }
            files.push(file);
            k = k + 1;
        }
        proof {
            assert(models_of(files@) + Seq::<EntryModel>::empty() =~= models_of(files@));
        }
        Ok(ZipArchive { reader, files, offset: archive_offset, comment: footer.zip_file_comment })
    }

    /// Number of entries contained in this archive.
    pub fn len(&self) -> (r: usize)
        ensures
            r == self.files@.len(),
    {
        self.files.len()
    }

    /// Get the offset from the beginning of the underlying source that this
    /// archive begins at: the number of bytes prepended before the
    /// container's true start.
    pub fn offset(&self) -> (r: u64)
        ensures
            r == self.offset,
    {
        self.offset
    }

    /// Unwrap and return the underlying bytes.
    ///
    /// The read position is forgotten.
    pub fn into_inner(self) -> (r: Vec<u8>)
        ensures
            r@ == self.reader.data@,
    {
        self.reader.into_data()
    }

    /// Search for an entry by name; a later duplicate overrides an earlier
    /// one, which stays reachable by index.
    pub fn by_name(&mut self, name: &str) -> (r: ZipResult<ZipFile>)
        ensures
            match spec_last_name_index(models_of(old(self).files@), name@) {
                None => {
                    &&& r matches Err(e) && e is FileNotFound
                    &&& *final(self) == *old(self)
                },
                Some(i) => by_index_outcome(*old(self), *final(self), i, r),
            },
    {
        let ghost entries = models_of(self.files@);
        let owned: String = name.to_owned();
        let mut j: usize = self.files.len();
        proof {
            assert(entries.take(j as int) =~= entries);
        }
        loop
            invariant
                *self == *old(self),
                entries == models_of(self.files@),
                owned@ == name@,
                0 <= j <= self.files@.len(),
                spec_last_name_index(entries, name@) == spec_last_name_index(
                    entries.take(j as int),
                    name@,
                ),
            decreases j,
        {
            if j == 0 {
                proof {
                    assert(entries.take(0) =~= Seq::<EntryModel>::empty());
                }
                return Err(ZipError::FileNotFound);
            }
            j = j - 1;
            if self.files[j].file_name == owned {
                proof {
                    let t = entries.take(j + 1);
                    assert(t.last() == entries[j as int]);
                    assert(spec_last_name_index(entries, name@) == Some(j as int));
                }
                return self.by_index(j);
            }
            proof {
                let t = entries.take(j + 1);
                assert(t.last() == entries[j as int]);
                assert(t.drop_last() =~= entries.take(j as int));
            }
        }
    }

    /// Get a contained entry by index: re-validates the local header,
    /// resolves and caches the entry's data start, and builds its
    /// decompression pipeline.  On failure the archive is left untouched;
    /// on success the source is left at the entry's data start.
    pub fn by_index(&mut self, file_number: usize) -> (r: ZipResult<ZipFile>)
        ensures
            by_index_outcome(*old(self), *final(self), file_number as int, r),
    {
        let ghost s = self.reader.data@;
        if file_number >= self.files.len() {
            return Err(ZipError::FileNotFound);
        }
        if self.files[file_number].encrypted {
            return unsupported_zip_error("Encrypted files are not supported");
        }
        let hs = self.files[file_number].header_start;
        let dlen: usize = self.reader.data.len();
        proof {
            vstd::std_specs::vec::axiom_spec_len(&self.reader.data);
        }

        // Validate the local header; the archive is left untouched until
        // everything has been checked.
        if hs > dlen as u64 || dlen as u64 - hs < 4 {
            return Err(ZipError::Io);
        }
        let signature = le32_direct(&self.reader.data, hs as usize);
        if signature != LOCAL_FILE_HEADER_SIGNATURE {
            return Err(ZipError::InvalidArchive("Invalid local file header"));
        }
        if dlen as u64 - hs < 30 {
            return Err(ZipError::Io);
        }
        let file_name_length = le16_direct(&self.reader.data, hs as usize + 26);
        let extra_field_length = le16_direct(&self.reader.data, hs as usize + 28);
        let ds_wide: u128 = hs as u128 + 30 + file_name_length as u128 + extra_field_length as u128;
        if ds_wide > u64::MAX as u128 {
            return Err(ZipError::InvalidArchive("Invalid local file header"));
        }
        let data_start = ds_wide as u64;

        let lo: usize = if data_start > dlen as u64 {
            dlen
        } else {
            data_start as usize
        };
        let csize = self.files[file_number].compressed_size;
        let avail: u64 = (dlen - lo) as u64;
        let take_n: u64 = if csize < avail {
            csize
        } else {
            avail
        };
        let hi: usize = lo + take_n as usize;
        let raw = vstd::slice::slice_to_vec(
            vstd::slice::slice_subrange(self.reader.data.as_slice(), lo, hi),
        );
        let zr = match make_reader(
            self.files[file_number].compression_method,
            self.files[file_number].crc32,
            raw,
        ) {
            Ok(z) => z,
            Err(e) => return Err(e),
        };

        // Success: cache the resolved data start and leave the source at it.
        self.reader.seek_to(data_start);
        let mut entry = self.files[file_number].clone();
        entry.data_start = data_start;
        let handle_data = entry.clone();
        let ghost files_before = self.files@;
        self.files.set(file_number, entry);
        proof {
            lemma_models_update(files_before, file_number as int, self.files@[file_number as int]);
        }
        Ok(ZipFile { data: handle_data, reader: zr })
    }
}

} // verus!

verus! {

/// What one step of the sequential reader yields at position `p`: the next
/// entry's metadata and the bounds of its raw bytes, `None` when the
/// central directory has been reached, or the failure class.
pub open spec fn spec_stream_entry(s: Seq<u8>, p: int) -> Result<
    Option<(EntryModel, int, int)>,
    FailKind,
> {
    if p + 4 > s.len() {
        Err(FailKind::Io)
    } else if le32_at(s, p) == CENTRAL_DIRECTORY_HEADER_SIGNATURE {
        Ok(None)
    } else if le32_at(s, p) != LOCAL_FILE_HEADER_SIGNATURE {
        Err(FailKind::Invalid)
    } else if p + 30 > s.len() {
        Err(FailKind::Io)
    } else {
        let flags = le16_at(s, p + 6);
        let nlen = le16_at(s, p + 26);
        let elen = le16_at(s, p + 28);
        if p + 30 + nlen > s.len() {
            Err(FailKind::Io)
        } else if p + 30 + nlen + elen > s.len() {
            Err(FailKind::Io)
        } else {
            let is_utf8 = (flags / 0x800) % 2 == 1;
            let name_raw = s.subrange(p + 30, p + 30 + nlen);
            let extra = s.subrange(p + 30 + nlen, p + 30 + nlen + elen);
            let scan = ef_scan(extra, 0, le32_at(s, p + 22) as u64, le32_at(s, p + 18) as u64, 0);
            if flags % 2 == 1 {
                Err(FailKind::Unsupported)
            } else if (flags / 8) % 2 == 1 {
                Err(FailKind::Unsupported)
            } else if !is_supported_method(spec_method_from_u16(le16_at(s, p + 8) as u16)) {
                Err(FailKind::Unsupported)
            } else {
                let lo = p + 30 + nlen + elen;
                let hi = if lo + scan.1 <= s.len() {
                    lo + scan.1
                } else {
                    s.len() as int
                };
                Ok(
                    Some(
                        (
                            EntryModel {
                                system: spec_system_from_u8((le16_at(s, p + 4) / 0x100) as u8),
                                version_made_by: (le16_at(s, p + 4) % 0x100) as u8,
                                encrypted: false,
                                compression_method: spec_method_from_u16(le16_at(s, p + 8) as u16),
                                last_modified_time: spec_datetime_from_msdos(
                                    le16_at(s, p + 12) as u16,
                                    le16_at(s, p + 10) as u16,
                                ),
                                crc32: le32_at(s, p + 14) as u32,
                                compressed_size: scan.1,
                                uncompressed_size: scan.0,
                                file_name: spec_decode_text(name_raw, is_utf8),
                                file_name_raw: name_raw,
                                file_comment: Seq::empty(),
                                header_start: scan.2,
                                data_start: 0,
                                external_attributes: 0,
                            },
                            lo,
                            hi,
                        ),
                    ),
                )
            }
        }
    }
}

/// Where the sequential reader stops when it rejects or cannot finish the
/// record at `p`: after whatever whole blocks were readable.
pub open spec fn spec_stream_err_pos(s: Seq<u8>, p: int) -> int {
    if p + 4 > s.len() {
        p
    } else if le32_at(s, p) != LOCAL_FILE_HEADER_SIGNATURE {
        p + 4
    } else if p + 30 > s.len() {
        p + 4
    } else {
        let nlen = le16_at(s, p + 26);
        let elen = le16_at(s, p + 28);
        if p + 30 + nlen > s.len() {
            p + 30
        } else if p + 30 + nlen + elen > s.len() {
            p + 30 + nlen
        } else {
            p + 30 + nlen + elen
        }
    }
}

/// Reads the next entry from a forward-only position, without consulting
/// the central directory.
///
/// Returns `Ok(Some(..))` with a handle when a local header starts at the
/// current position, and `Ok(None)` when the central directory has been
/// reached instead — no more entries follow.  The source is left
/// positioned exactly after the entry's raw bytes, so repeated calls walk
/// the archive front to back without ever seeking backward.  Entries that
/// are encrypted or declare a trailing data descriptor are rejected as
/// unsupported.
///
/// Fields the local header does not carry are fixed values here: the
/// comment is empty, `data_start` is zero, and `unix_mode()` yields `None`.
pub fn read_zipfile_from_stream(reader: &mut ByteReader) -> (r: ZipResult<Option<ZipFile>>)
    ensures
        final(reader).data@ == old(reader).data@,
        final(reader).pos >= old(reader).pos,
        match r {
            Ok(opt) => match opt {
                None => spec_stream_entry(old(reader).data@, old(reader).pos as int) == Ok::<
                    Option<(EntryModel, int, int)>,
                    FailKind,
                >(None) && final(reader).pos == old(reader).pos + 4,
                Some(zf) => spec_stream_entry(old(reader).data@, old(reader).pos as int) matches
                    Ok(Some(t)) && {
                    &&& zf.data@ == t.0
                    &&& pipeline_spec(
                        t.0.compression_method,
                        t.0.crc32,
                        old(reader).data@.subrange(t.1, t.2),
                        zf.reader,
                    )
                    &&& zf.reader.pos == 0
                    &&& final(reader).pos == t.2
                },
            },
            Err(e) => spec_stream_entry(old(reader).data@, old(reader).pos as int) == Err::<
                Option<(EntryModel, int, int)>,
                FailKind,
            >(err_kind(e)) && final(reader).pos == spec_stream_err_pos(
                old(reader).data@,
                old(reader).pos as int,
            ),
        },
{
    let ghost s = reader.data@;
    let ghost p = reader.pos as int;
    let signature = match reader.read_u32() {
        Ok(v) => v,
        Err(e) => return Err(e),
    };
    if signature == CENTRAL_DIRECTORY_HEADER_SIGNATURE {
        return Ok(None);
    }
    if signature != LOCAL_FILE_HEADER_SIGNATURE {
        return Err(ZipError::InvalidArchive("Invalid local file header"));
    }

    let dlen_early: usize = reader.data.len();
    if dlen_early as u64 - reader.pos < 26 {
        return Err(ZipError::Io);
    }
    let version_made_by = match reader.read_u16() {
        Ok(v) => v,
        Err(e) => return Err(e),
    };
    let flags = match reader.read_u16() {
        Ok(v) => v,
        Err(e) => return Err(e),
    };
    let encrypted = flags % 2 == 1;
    let is_utf8 = (flags / 0x800) % 2 == 1;
    let using_data_descriptor = (flags / 8) % 2 == 1;
    let compression_method = match reader.read_u16() {
        Ok(v) => v,
        Err(e) => return Err(e),
    };
    let last_mod_time = match reader.read_u16() {
        Ok(v) => v,
        Err(e) => return Err(e),
    };
    let last_mod_date = match reader.read_u16() {
        Ok(v) => v,
        Err(e) => return Err(e),
    };
    let crc32 = match reader.read_u32() {
        Ok(v) => v,
        Err(e) => return Err(e),
    };
    let compressed_size = match reader.read_u32() {
        Ok(v) => v,
        Err(e) => return Err(e),
    };
    let uncompressed_size = match reader.read_u32() {
        Ok(v) => v,
        Err(e) => return Err(e),
    };
    let file_name_length = match reader.read_u16() {
        Ok(v) => v,
        Err(e) => return Err(e),
    };
    let extra_field_length = match reader.read_u16() {
        Ok(v) => v,
        Err(e) => return Err(e),
    };
    let file_name_raw = match reader.read_exact(file_name_length as usize) {
        Ok(v) => v,
        Err(e) => return Err(e),
    };
    let extra_field = match reader.read_exact(extra_field_length as usize) {
        Ok(v) => v,
        Err(e) => return Err(e),
    };

    let file_name = decode_text(&file_name_raw, is_utf8);

    let mut result = ZipFileData {
        system: System::from_u8((version_made_by / 0x100) as u8),
        version_made_by: (version_made_by % 0x100) as u8,
        encrypted,
        compression_method: CompressionMethod::from_u16(compression_method),
        last_modified_time: DateTime::from_msdos(last_mod_date, last_mod_time),
        crc32,
        compressed_size: compressed_size as u64,
        uncompressed_size: uncompressed_size as u64,
        file_name,
        file_name_raw,
        // the comment lives only in the central directory
        file_comment: String::new(),
        // neither is obtainable without the directory
        header_start: 0,
        data_start: 0,
        external_attributes: 0,
    };

    match parse_extra_field(&mut result, &extra_field) {
        Ok(_) => (),
        Err(ZipError::Io) => (),
        Err(e) => return Err(e),
    }

    if encrypted {
        return unsupported_zip_error("Encrypted files are not supported");
    }
    if using_data_descriptor {
        return unsupported_zip_error("The file length is not available in the local header");
    }

    // Bound the entry's raw bytes and leave the source positioned exactly
    // after them, so the next call starts at the following header.
    let dlen: usize = reader.data.len();
    let cur: u64 = reader.pos;
    let lo: usize = cur as usize;
    let avail: u64 = (dlen - lo) as u64;
    let take_n: u64 = if result.compressed_size < avail {
        result.compressed_size
    } else {
        avail
    };
    let hi: usize = lo + take_n as usize;
    let raw = vstd::slice::slice_to_vec(
        vstd::slice::slice_subrange(reader.data.as_slice(), lo, hi),
    );
    let zr = match make_reader(result.compression_method, result.crc32, raw) {
        Ok(z) => z,
        Err(e) => return Err(e),
    };
    reader.seek_to(cur + take_n);
    proof {
        let t = spec_stream_entry(s, p)->Ok_0->Some_0;
        assert(result@ =~= t.0);
    }
    Ok(Some(ZipFile { data: result, reader: zr }))
}

} // verus!
