//! Reading of ZIP archives.
//!
//! An archive is opened from an in-memory byte source: the central directory
//! at the end of the source is located and parsed into per-entry metadata,
//! and each entry can then be opened as a checksum-validated, decompressed
//! byte stream, addressed by index or by name.  A second, sequential mode
//! reads entries from a forward-only position without using the central
//! directory at all.

mod checksum;
mod compression;
mod cp437;
mod decompress;
pub mod extra;
pub mod laws;
pub mod read;
pub mod reader;
pub mod records;
mod result;
pub mod text;
mod types;

pub use compression::CompressionMethod;
pub use laws::lemma_duplicate_names_last_wins;
pub use laws::lemma_entry_count;
pub use laws::lemma_open_entry_shift;
pub use laws::lemma_prepended_archive;
pub use laws::lemma_prepended_data_offset;
pub use laws::lemma_streaming_traversal;
pub use read::read_zipfile_from_stream;
pub use read::ZipArchive;
pub use read::ZipFile;
pub use reader::ByteReader;
pub use result::err_kind;
pub use result::unsupported_zip_error;
pub use result::FailKind;
pub use result::ZipError;
pub use result::ZipResult;
pub use types::DateTime;
pub use types::System;
pub use types::ZipFileData;
