//! Per-entry metadata: originating system, timestamp, and the parsed record.

use crate::compression::CompressionMethod;
use vstd::prelude::*;

verus! {

/// The system an entry was made on, from the high byte of the
/// version-made-by field.
#[derive(Clone, Copy, Debug, PartialEq, Eq, Structural)]
pub enum System {
    Dos,
    Unix,
    Unknown,
}

pub open spec fn spec_system_from_u8(system: u8) -> System {
    if system == 0 {
        System::Dos
    } else if system == 3 {
        System::Unix
    } else {
        System::Unknown
    }
}

impl System {
    pub fn from_u8(system: u8) -> (r: System)
        ensures
            r == spec_system_from_u8(system),
    {
        match system {
            0 => System::Dos,
            3 => System::Unix,
            _ => System::Unknown,
        }
    }
}

/// A timestamp with MS-DOS two-second resolution.
///
/// The date word holds `year - 1980` in its top seven bits, then four month
/// bits, then five day bits; the time word holds five hour bits, six minute
/// bits, and five bits counting two-second steps.
#[derive(Clone, Copy, Debug, PartialEq, Eq, Structural)]
pub struct DateTime {
    pub year: u16,
    pub month: u8,
    pub day: u8,
    pub hour: u8,
    pub minute: u8,
    pub second: u8,
}

pub open spec fn spec_datetime_from_msdos(datepart: u16, timepart: u16) -> DateTime {
    DateTime {
        year: (1980 + datepart / 0x200) as u16,
        month: ((datepart / 0x20) % 0x10) as u8,
        day: (datepart % 0x20) as u8,
        hour: (timepart / 0x800) as u8,
        minute: ((timepart / 0x20) % 0x40) as u8,
        second: (2 * (timepart % 0x20)) as u8,
    }
}

impl DateTime {
    /// Splits an MS-DOS date and time word pair into calendar fields.
    pub fn from_msdos(datepart: u16, timepart: u16) -> (r: DateTime)
        ensures
            r == spec_datetime_from_msdos(datepart, timepart),
    {
        DateTime {
            year: 1980 + datepart / 0x200,
            month: ((datepart / 0x20) % 0x10) as u8,
            day: (datepart % 0x20) as u8,
            hour: (timepart / 0x800) as u8,
            minute: ((timepart / 0x20) % 0x40) as u8,
            second: (2 * (timepart % 0x20)) as u8,
        }
    }

    pub fn year(&self) -> (r: u16)
        ensures
            r == self.year,
    {
        self.year
    }

    pub fn month(&self) -> (r: u8)
        ensures
            r == self.month,
    {
        self.month
    }

    pub fn day(&self) -> (r: u8)
        ensures
            r == self.day,
    {
        self.day
    }

    pub fn hour(&self) -> (r: u8)
        ensures
            r == self.hour,
    {
        self.hour
    }

    pub fn minute(&self) -> (r: u8)
        ensures
            r == self.minute,
    {
        self.minute
    }

    pub fn second(&self) -> (r: u8)
        ensures
            r == self.second,
    {
        self.second
    }
}

/// Everything known about one entry, in the coordinate space of the
/// underlying source: `header_start` has the archive's prepended-bytes
/// offset already added, and `data_start` is resolved lazily on first
/// random access (zero until then).
#[derive(Debug)]
pub struct ZipFileData {
    pub system: System,
    pub version_made_by: u8,
    pub encrypted: bool,
    pub compression_method: CompressionMethod,
    pub last_modified_time: DateTime,
    pub crc32: u32,
    pub compressed_size: u64,
    pub uncompressed_size: u64,
    pub file_name: String,
    pub file_name_raw: Vec<u8>,
    pub file_comment: String,
    pub header_start: u64,
    pub data_start: u64,
    pub external_attributes: u32,
}

/// The mathematical image of a [`ZipFileData`]: text as character
/// sequences, raw bytes as byte sequences.
#[verifier::ext_equal]
pub ghost struct EntryModel {
    pub system: System,
    pub version_made_by: u8,
    pub encrypted: bool,
    pub compression_method: CompressionMethod,
    pub last_modified_time: DateTime,
    pub crc32: u32,
    pub compressed_size: u64,
    pub uncompressed_size: u64,
    pub file_name: Seq<char>,
    pub file_name_raw: Seq<u8>,
    pub file_comment: Seq<char>,
    pub header_start: u64,
    pub data_start: u64,
    pub external_attributes: u32,
}

impl View for ZipFileData {
    type V = EntryModel;

    open spec fn view(&self) -> EntryModel {
        EntryModel {
            system: self.system,
            version_made_by: self.version_made_by,
            encrypted: self.encrypted,
            compression_method: self.compression_method,
            last_modified_time: self.last_modified_time,
            crc32: self.crc32,
            compressed_size: self.compressed_size,
            uncompressed_size: self.uncompressed_size,
            file_name: self.file_name@,
            file_name_raw: self.file_name_raw@,
            file_comment: self.file_comment@,
            header_start: self.header_start,
            data_start: self.data_start,
            external_attributes: self.external_attributes,
        }
    }
}

/// Copies a byte vector element by element.
pub fn clone_bytes(v: &Vec<u8>) -> (r: Vec<u8>)
    ensures
        r@ == v@,
{
    vstd::slice::slice_to_vec(v.as_slice())
}

impl Clone for ZipFileData {
    fn clone(&self) -> (r: Self)
        ensures
            r@ == self@,
    {
        let r = ZipFileData {
            system: self.system,
            version_made_by: self.version_made_by,
            encrypted: self.encrypted,
            compression_method: self.compression_method,
            last_modified_time: self.last_modified_time,
            crc32: self.crc32,
            compressed_size: self.compressed_size,
            uncompressed_size: self.uncompressed_size,
            file_name: self.file_name.clone(),
            file_name_raw: clone_bytes(&self.file_name_raw),
            file_comment: self.file_comment.clone(),
            header_start: self.header_start,
            data_start: self.data_start,
            external_attributes: self.external_attributes,
        };
        proof {
            assert(r@ =~= self@);
        }
        r
    }
}

} // verus!
