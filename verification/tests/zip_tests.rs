use zip::read_zipfile_from_stream;
use zip::ByteReader;
use zip::CompressionMethod;
use zip::ZipArchive;
use zip::ZipError;

use std::io::Write;

// ---- helpers: building archives in memory ----------------------------------

fn push_u16(out: &mut Vec<u8>, v: u16) {
    out.extend_from_slice(&v.to_le_bytes());
}

fn push_u32(out: &mut Vec<u8>, v: u32) {
    out.extend_from_slice(&v.to_le_bytes());
}

fn push_u64(out: &mut Vec<u8>, v: u64) {
    out.extend_from_slice(&v.to_le_bytes());
}

fn crc32(data: &[u8]) -> u32 {
    let mut crc = flate2::Crc::new();
    crc.update(data);
    crc.sum()
}

fn deflate(data: &[u8]) -> Vec<u8> {
    let mut enc =
        flate2::write::DeflateEncoder::new(Vec::new(), flate2::Compression::default());
    Write::write_all(&mut enc, data).unwrap();
    enc.finish().unwrap()
}

fn bzip(data: &[u8]) -> Vec<u8> {
    let mut enc = bzip2::write::BzEncoder::new(Vec::new(), bzip2::Compression::default());
    Write::write_all(&mut enc, data).unwrap();
    enc.finish().unwrap()
}

#[derive(Clone)]
struct TestEntry {
    name: Vec<u8>,
    method: u16,
    flags: u16,
    crc: u32,
    compressed: Vec<u8>,
    uncompressed_size: u32,
    date: u16,
    time: u16,
    version_made_by: u16,
    external: u32,
    comment: Vec<u8>,
    zip64_extra: bool,
}

impl TestEntry {
    fn stored(name: &str, content: &[u8]) -> TestEntry {
        TestEntry {
            name: name.as_bytes().to_vec(),
            method: 0,
            flags: 1 << 11,
            crc: crc32(content),
            compressed: content.to_vec(),
            uncompressed_size: content.len() as u32,
            date: 0x0021,
            time: 0,
            version_made_by: 0x0314,
            external: 0,
            comment: Vec::new(),
            zip64_extra: false,
        }
    }
}

/// Lays out `junk ++ locals ++ central directory ++ trailer(comment)`.
/// Recorded offsets are relative to the start of the true container, so a
/// non-empty `junk` makes every recorded offset short by `junk.len()`.
fn build_zip(entries: &[TestEntry], comment: &[u8], junk: &[u8]) -> Vec<u8> {
    let mut out = junk.to_vec();
    let base = junk.len();
    let mut local_offsets = Vec::new();
    for e in entries {
        local_offsets.push((out.len() - base) as u32);
        push_u32(&mut out, 0x04034b50);
        push_u16(&mut out, 20); // version needed
        push_u16(&mut out, e.flags);
        push_u16(&mut out, e.method);
        push_u16(&mut out, e.time);
        push_u16(&mut out, e.date);
        push_u32(&mut out, e.crc);
        push_u32(&mut out, e.compressed.len() as u32);
        push_u32(&mut out, e.uncompressed_size);
        push_u16(&mut out, e.name.len() as u16);
        push_u16(&mut out, 0); // local extra length
        out.extend_from_slice(&e.name);
        out.extend_from_slice(&e.compressed);
    }
    let cd_start = (out.len() - base) as u32;
    for (i, e) in entries.iter().enumerate() {
        push_u32(&mut out, 0x02014b50);
        push_u16(&mut out, e.version_made_by);
        push_u16(&mut out, 20);
        push_u16(&mut out, e.flags);
        push_u16(&mut out, e.method);
        push_u16(&mut out, e.time);
        push_u16(&mut out, e.date);
        if e.zip64_extra {
            push_u32(&mut out, e.crc);
            push_u32(&mut out, 0xFFFF_FFFF);
            push_u32(&mut out, 0xFFFF_FFFF);
            push_u16(&mut out, e.name.len() as u16);
            push_u16(&mut out, 4 + 24); // extra length
            push_u16(&mut out, 0); // comment length
            push_u16(&mut out, 0); // disk
            push_u16(&mut out, 0); // internal attributes
            push_u32(&mut out, e.external);
            push_u32(&mut out, 0xFFFF_FFFF);
            out.extend_from_slice(&e.name);
            push_u16(&mut out, 0x0001);
            push_u16(&mut out, 24);
            push_u64(&mut out, e.uncompressed_size as u64);
            push_u64(&mut out, e.compressed.len() as u64);
            push_u64(&mut out, local_offsets[i] as u64);
        } else {
            push_u32(&mut out, e.crc);
            push_u32(&mut out, e.compressed.len() as u32);
            push_u32(&mut out, e.uncompressed_size);
            push_u16(&mut out, e.name.len() as u16);
            push_u16(&mut out, 0); // extra length
            push_u16(&mut out, e.comment.len() as u16);
            push_u16(&mut out, 0); // disk
            push_u16(&mut out, 0); // internal attributes
            push_u32(&mut out, e.external);
            push_u32(&mut out, local_offsets[i]);
            out.extend_from_slice(&e.name);
            out.extend_from_slice(&e.comment);
        }
    }
    let cd_size = (out.len() - base) as u32 - cd_start;
    push_u32(&mut out, 0x06054b50);
    push_u16(&mut out, 0); // disk number
    push_u16(&mut out, 0); // disk with central directory
    push_u16(&mut out, entries.len() as u16);
    push_u16(&mut out, entries.len() as u16);
    push_u32(&mut out, cd_size);
    push_u32(&mut out, cd_start);
    push_u16(&mut out, comment.len() as u16);
    out.extend_from_slice(comment);
    out
}

/// As `build_zip`, but with a ZIP64 end-of-central-directory record and
/// locator between the directory and the classic trailer.
fn build_zip64(entries: &[TestEntry], junk: &[u8]) -> Vec<u8> {
    let mut out = build_zip(entries, b"", junk);
    // cut off the classic trailer and re-lay the tail
    let eocd = out.split_off(out.len() - 22);
    let cd_size = u32::from_le_bytes(eocd[12..16].try_into().unwrap());
    let cd_start = u32::from_le_bytes(eocd[16..20].try_into().unwrap());
    let z64_pos = (out.len() - junk.len()) as u64;
    push_u32(&mut out, 0x06064b50);
    push_u64(&mut out, 44); // record size
    push_u16(&mut out, 45);
    push_u16(&mut out, 45);
    push_u32(&mut out, 0); // disk number
    push_u32(&mut out, 0); // disk with central directory
    push_u64(&mut out, entries.len() as u64);
    push_u64(&mut out, entries.len() as u64);
    push_u64(&mut out, cd_size as u64);
    push_u64(&mut out, cd_start as u64);
    push_u32(&mut out, 0x07064b50);
    push_u32(&mut out, 0); // disk with central directory
    push_u64(&mut out, z64_pos);
    push_u32(&mut out, 1); // total disks
    out.extend_from_slice(&eocd);
    out
}

fn drain(file: &mut zip::ZipFile, chunk: usize) -> Result<Vec<u8>, ZipError> {
    let mut all = Vec::new();
    loop {
        let part = file.read(chunk)?;
        if part.is_empty() {
            return Ok(all);
        }
        all.extend_from_slice(&part);
    }
}

// ---- ports of the original suite -------------------------------------------

#[test]
fn invalid_offset() {
    // recorded directory offset does not match its physical position and no
    // non-negative correction reconciles them
    let entries = [TestEntry::stored("mimetype", b"application/epub+zip")];
    let mut v = build_zip(&entries, b"", b"");
    let eocd_at = v.len() - 22;
    // overstate the recorded directory offset
    let bogus = (v.len() as u32) + 100;
    v[eocd_at + 16..eocd_at + 20].copy_from_slice(&bogus.to_le_bytes());
    let reader = ZipArchive::new(v);
    assert!(reader.is_err());
}

#[test]
fn zip64_with_leading_junk() {
    let entries = [TestEntry::stored("mimetype", b"application/epub+zip")];
    let v = build_zip64(&entries, b"this is some leading junk");
    let reader = ZipArchive::new(v).unwrap();
    assert!(reader.len() == 1);
}

#[test]
fn zip_comment() {
    let entries = [TestEntry::stored("mimetype", b"application/epub+zip")];
    let v = build_zip(&entries, b"zip-rs", b"");
    let reader = ZipArchive::new(v).unwrap();
    assert!(reader.comment == b"zip-rs");
}

#[test]
fn zip_read_streaming() {
    let entries = [TestEntry::stored("mimetype", b"application/epub+zip")];
    let v = build_zip(&entries, b"", b"");
    let mut reader = ByteReader::new(v);
    loop {
        match read_zipfile_from_stream(&mut reader).unwrap() {
            None => break,
            _ => (),
        }
    }
}

#[test]
fn zip_clone() {
    let entries = [TestEntry::stored("mimetype", b"application/epub+zip")];
    let v = build_zip(&entries, b"", b"");
    let mut reader1 = ZipArchive::new(v).unwrap();
    let mut reader2 = reader1.clone();

    let mut file1 = reader1.by_index(0).unwrap();
    let mut file2 = reader2.by_index(0).unwrap();

    let t = file1.last_modified();
    assert_eq!(
        (
            t.year(),
            t.month(),
            t.day(),
            t.hour(),
            t.minute(),
            t.second()
        ),
        (1980, 1, 1, 0, 0, 0)
    );

    let buf1 = file1.read(5).unwrap();
    let buf2 = file2.read(5).unwrap();
    let buf3 = file1.read(5).unwrap();
    let buf4 = file2.read(5).unwrap();

    assert_eq!(buf1, buf2);
    assert_eq!(buf3, buf4);
    assert!(buf1 != buf3);
}

#[test]
fn file_and_dir_predicates() {
    let entries = [
        TestEntry::stored("dir1/", b""),
        TestEntry::stored("dir2/", b""),
        TestEntry::stored("dir1/file1", b"one"),
        TestEntry::stored("file2", b"two"),
    ];
    let v = build_zip(&entries, b"", b"");
    let mut zip = ZipArchive::new(v).unwrap();

    for i in 0..zip.len() {
        let zip_file = zip.by_index(i).unwrap();
        let full_name = zip_file.sanitized_name();
        let file_name = full_name.rsplit('/').next().unwrap();
        assert!(
            (file_name.starts_with("dir") && zip_file.is_dir())
                || (file_name.starts_with("file") && zip_file.is_file())
        );
    }
}

// ---- entry count and per-index access --------------------------------------

#[test]
fn every_index_opens_and_len_matches() {
    let entries = [
        TestEntry::stored("a.txt", b"alpha"),
        TestEntry::stored("b.txt", b"beta content"),
        TestEntry::stored("c/d.txt", b"gamma!"),
    ];
    let v = build_zip(&entries, b"", b"");
    let mut zip = ZipArchive::new(v).unwrap();
    assert_eq!(zip.len(), 3);
    for i in 0..zip.len() {
        assert!(zip.by_index(i).is_ok());
    }
    assert!(matches!(zip.by_index(3), Err(ZipError::FileNotFound)));
}

// ---- draining and checksum timing ------------------------------------------

#[test]
fn drain_yields_uncompressed_size_all_methods() {
    let content: Vec<u8> = (0u32..10_000).map(|i| (i % 251) as u8).collect();
    let mut stored = TestEntry::stored("s.bin", &content);
    stored.method = 0;
    let mut deflated = TestEntry::stored("d.bin", &content);
    deflated.method = 8;
    deflated.compressed = deflate(&content);
    let mut bzipped = TestEntry::stored("b.bin", &content);
    bzipped.method = 12;
    bzipped.compressed = bzip(&content);
    let v = build_zip(&[stored, deflated, bzipped], b"", b"");
    let mut zip = ZipArchive::new(v).unwrap();
    for i in 0..3 {
        let mut f = zip.by_index(i).unwrap();
        let size = f.size();
        let all = drain(&mut f, 777).unwrap();
        assert_eq!(all.len() as u64, size);
        assert_eq!(all, content);
    }
}

#[test]
fn crc_mismatch_surfaces_only_on_final_read() {
    let content = b"0123456789abcdef0123456789abcdef";
    let mut e = TestEntry::stored("x.bin", content);
    e.crc ^= 0xdeadbeef; // declared checksum does not match the bytes
    let v = build_zip(&[e], b"", b"");
    let mut zip = ZipArchive::new(v).unwrap();
    let mut f = zip.by_index(0).unwrap();
    // every read before the end succeeds and yields correct bytes
    let mut got = Vec::new();
    for _ in 0..4 {
        let part = f.read(8).unwrap();
        assert_eq!(part.len(), 8);
        got.extend_from_slice(&part);
    }
    assert_eq!(got, content);
    // the read at the end delivers the verdict
    assert!(matches!(f.read(1), Err(ZipError::Crc32Mismatch)));
}

#[test]
fn stored_roundtrip_and_corruption_detected() {
    let content = b"known file content for the roundtrip";
    let e = TestEntry::stored("data.bin", content);
    let v = build_zip(&[e], b"", b"");

    let mut zip = ZipArchive::new(v.clone()).unwrap();
    let mut f = zip.by_index(0).unwrap();
    assert_eq!(f.crc32(), crc32(content));
    let all = drain(&mut f, 7).unwrap();
    assert_eq!(all, content);

    // flip one content byte: the final read fails rather than silently
    // returning wrong bytes
    let mut bad = v.clone();
    let data_start = f.data_start() as usize;
    bad[data_start + 3] ^= 0x40;
    let mut zip2 = ZipArchive::new(bad).unwrap();
    let mut f2 = zip2.by_index(0).unwrap();
    assert!(drain(&mut f2, 7).is_err());
}

// ---- duplicate names --------------------------------------------------------

#[test]
fn duplicate_names_resolve_to_last() {
    let entries = [
        TestEntry::stored("same.txt", b"first version"),
        TestEntry::stored("other.txt", b"unrelated"),
        TestEntry::stored("same.txt", b"second version"),
    ];
    let v = build_zip(&entries, b"", b"");
    let mut zip = ZipArchive::new(v).unwrap();
    let mut by_name = zip.by_name("same.txt").unwrap();
    assert_eq!(drain(&mut by_name, 64).unwrap(), b"second version");
    // the earlier duplicate stays reachable by index
    let mut first = zip.by_index(0).unwrap();
    assert_eq!(drain(&mut first, 64).unwrap(), b"first version");
    assert!(matches!(
        zip.by_name("absent.txt"),
        Err(ZipError::FileNotFound)
    ));
}

// ---- prepended data ----------------------------------------------------------

#[test]
fn offset_equals_prepended_byte_count() {
    let content = b"payload under junk";
    for junk_len in [0usize, 1, 100, 4096] {
        let junk: Vec<u8> = (0..junk_len).map(|i| (i * 37 % 256) as u8).collect();
        let entries = [TestEntry::stored("f.txt", content)];
        let v = build_zip(&entries, b"", &junk);
        let mut zip = ZipArchive::new(v).unwrap();
        assert_eq!(zip.offset(), junk_len as u64);
        let mut f = zip.by_index(0).unwrap();
        assert_eq!(drain(&mut f, 5).unwrap(), content);
    }
}

// ---- ZIP64 widened fields ----------------------------------------------------

#[test]
fn zip64_extra_field_widens_saturated_fields() {
    let content = b"zip64 sized entry";
    let mut e = TestEntry::stored("wide.bin", content);
    e.zip64_extra = true;
    let v = build_zip(&[e], b"", b"");
    let mut zip = ZipArchive::new(v).unwrap();
    let mut f = zip.by_index(0).unwrap();
    assert_eq!(f.size(), content.len() as u64);
    assert_eq!(f.compressed_size(), content.len() as u64);
    assert_eq!(drain(&mut f, 4).unwrap(), content);
}

// ---- streaming ---------------------------------------------------------------

#[test]
fn streaming_yields_entries_in_order_then_none() {
    let entries = [
        TestEntry::stored("first", b"1111"),
        TestEntry::stored("second", b"22"),
        TestEntry::stored("third", b"333333"),
    ];
    let v = build_zip(&entries, b"", b"");
    let mut reader = ByteReader::new(v);
    let mut names = Vec::new();
    loop {
        match read_zipfile_from_stream(&mut reader).unwrap() {
            Some(mut f) => {
                names.push(f.name().to_string());
                // the source is already positioned past this entry, so the
                // handle may be read fully or dropped early at will
                let all = drain(&mut f, 3).unwrap();
                assert_eq!(all.len() as u64, f.size());
            }
            None => break,
        }
    }
    assert_eq!(names, ["first", "second", "third"]);
}

#[test]
fn streaming_rejects_data_descriptor_entries() {
    let mut e = TestEntry::stored("later.bin", b"sizes follow the data");
    e.flags |= 1 << 3;
    let v = build_zip(&[e], b"", b"");
    let mut reader = ByteReader::new(v);
    match read_zipfile_from_stream(&mut reader) {
        Err(ZipError::UnsupportedArchive(_)) => (),
        other => panic!("expected an unsupported-feature failure, got {:?}", other.is_ok()),
    }
}

// ---- encryption --------------------------------------------------------------

#[test]
fn encrypted_entries_fail_identically_on_both_paths() {
    let mut e = TestEntry::stored("secret.txt", b"ciphertext-ish bytes");
    e.flags |= 1;
    let v = build_zip(&[e], b"", b"");

    let mut zip = ZipArchive::new(v.clone()).unwrap();
    let random_access = zip.by_index(0);
    let msg_random = match random_access {
        Err(ZipError::UnsupportedArchive(m)) => m,
        _ => panic!("random access should reject an encrypted entry"),
    };

    let mut reader = ByteReader::new(v);
    let streamed = read_zipfile_from_stream(&mut reader);
    let msg_stream = match streamed {
        Err(ZipError::UnsupportedArchive(m)) => m,
        _ => panic!("streaming should reject an encrypted entry"),
    };
    assert_eq!(msg_random, msg_stream);
}

// ---- error classes -----------------------------------------------------------

#[test]
fn unsupported_compression_method_fails_at_open() {
    let mut e = TestEntry::stored("odd.bin", b"whatever");
    e.method = 99;
    let v = build_zip(&[e], b"", b"");
    let mut zip = ZipArchive::new(v.clone()).unwrap();
    assert!(matches!(
        zip.by_index(0),
        Err(ZipError::UnsupportedArchive(_))
    ));
    let mut reader = ByteReader::new(v);
    assert!(matches!(
        read_zipfile_from_stream(&mut reader),
        Err(ZipError::UnsupportedArchive(_))
    ));
}

#[test]
fn corrupt_local_header_is_a_structural_error() {
    let e = TestEntry::stored("f.txt", b"body");
    let mut v = build_zip(&[e], b"", b"");
    v[0] ^= 0xFF; // break the local header signature
    let mut zip = ZipArchive::new(v).unwrap();
    assert!(matches!(
        zip.by_index(0),
        Err(ZipError::InvalidArchive(_))
    ));
}

#[test]
fn empty_source_is_a_structural_error() {
    assert!(matches!(
        ZipArchive::new(Vec::new()),
        Err(ZipError::InvalidArchive(_))
    ));
}

#[test]
fn truncated_source_is_an_io_error() {
    let e = TestEntry::stored("f.txt", b"body");
    let v = build_zip(&[e], b"", b"");
    // keep the trailer but cut into the central directory: the trailer is
    // found, the directory read runs off the end
    let mut cut = v[v.len() - 22..].to_vec();
    let mut head = v[..8].to_vec();
    head.append(&mut cut);
    // fix the recorded numbers so the offset arithmetic stays consistent
    let n = head.len();
    head[n - 10..n - 6].copy_from_slice(&0u32.to_le_bytes()); // directory size
    head[n - 6..n - 2].copy_from_slice(&8u32.to_le_bytes()); // directory offset
    match ZipArchive::new(head) {
        Err(ZipError::Io) | Err(ZipError::InvalidArchive(_)) => (),
        other => panic!("expected a failure, opened: {:?}", other.is_ok()),
    }
}

#[test]
fn streaming_from_empty_source_is_an_io_error() {
    let mut reader = ByteReader::new(Vec::new());
    assert!(matches!(
        read_zipfile_from_stream(&mut reader),
        Err(ZipError::Io)
    ));
}

// ---- text decoding -----------------------------------------------------------

#[test]
fn utf8_flag_decodes_lossily() {
    let mut e = TestEntry::stored("x", b"data");
    e.name = vec![b'c', b'a', b'f', 0xC3, 0xA9, b'-', 0xFF];
    e.flags = 1 << 11;
    let v = build_zip(&[e], b"", b"");
    let mut zip = ZipArchive::new(v).unwrap();
    let f = zip.by_index(0).unwrap();
    assert_eq!(f.name(), "caf\u{e9}-\u{fffd}");
    assert_eq!(f.name_raw(), &[b'c', b'a', b'f', 0xC3, 0xA9, b'-', 0xFF]);
}

#[test]
fn legacy_code_page_decodes_high_bytes() {
    let mut e = TestEntry::stored("x", b"data");
    e.name = vec![b'r', 0x82, b's', 0x9B, 0xE1];
    e.flags = 0; // UTF-8 bit clear: the legacy code page applies
    let v = build_zip(&[e], b"", b"");
    let mut zip = ZipArchive::new(v).unwrap();
    let f = zip.by_index(0).unwrap();
    assert_eq!(f.name(), "r\u{e9}s\u{a2}\u{df}");
}

#[test]
fn sanitized_name_strips_unsafe_parts() {
    let cases: &[(&str, &str)] = &[
        ("/etc/passwd", "etc/passwd"),
        ("../../up.txt", "up.txt"),
        ("a/./b//c", "a/b/c"),
        ("name\0hidden", "name"),
        ("plain.txt", "plain.txt"),
    ];
    for (raw, want) in cases {
        let e = TestEntry::stored(raw, b"z");
        let v = build_zip(&[e], b"", b"");
        let mut zip = ZipArchive::new(v).unwrap();
        let f = zip.by_index(0).unwrap();
        assert_eq!(f.sanitized_name(), *want, "for {:?}", raw);
    }
}

// ---- metadata getters --------------------------------------------------------

#[test]
fn msdos_timestamp_fields() {
    let d = zip::DateTime::from_msdos(((2018 - 1980) << 9 | 3 << 5 | 15) as u16,
        (11 << 11 | 30 << 5 | 23) as u16);
    assert_eq!(
        (d.year(), d.month(), d.day(), d.hour(), d.minute(), d.second()),
        (2018, 3, 15, 11, 30, 46)
    );
}

#[test]
fn unix_mode_and_version() {
    let content = b"m";
    // a Unix-made entry carries its mode in the high half
    let mut unix = TestEntry::stored("u", content);
    unix.version_made_by = (3 << 8) | 20;
    unix.external = 0o100644 << 16;
    // a DOS-made directory sets the directory attribute bit
    let mut dos_dir = TestEntry::stored("d/", b"");
    dos_dir.version_made_by = 20;
    dos_dir.external = 0x10;
    // a DOS-made read-only file loses its write bits
    let mut dos_ro = TestEntry::stored("r", content);
    dos_ro.version_made_by = 20;
    dos_ro.external = 0x01;
    // zero attributes mean "unknown"
    let mut plain = TestEntry::stored("p", content);
    plain.version_made_by = 20;
    plain.external = 0;

    let v = build_zip(&[unix, dos_dir, dos_ro, plain], b"", b"");
    let mut zip = ZipArchive::new(v).unwrap();
    let f0 = zip.by_index(0).unwrap();
    assert_eq!(f0.unix_mode(), Some(0o100644));
    assert_eq!(f0.version_made_by(), (2, 0));
    assert_eq!(f0.compression(), CompressionMethod::Stored);
    let f1 = zip.by_index(1).unwrap();
    assert_eq!(f1.unix_mode(), Some(0o040000 | 0o0775));
    let f2 = zip.by_index(2).unwrap();
    assert_eq!(f2.unix_mode(), Some((0o100000 | 0o0664) & 0o0555));
    let f3 = zip.by_index(3).unwrap();
    assert_eq!(f3.unix_mode(), None);
}

#[test]
fn comment_and_into_inner() {
    let mut e = TestEntry::stored("f", b"abc");
    e.comment = b"per-entry words".to_vec();
    let v = build_zip(&[e], b"trailing words", b"");
    let mut zip = ZipArchive::new(v.clone()).unwrap();
    assert_eq!(zip.comment, b"trailing words");
    {
        let f = zip.by_index(0).unwrap();
        assert_eq!(f.comment(), "per-entry words");
    }
    let back = zip.into_inner();
    assert_eq!(back, v);
}

#[test]
fn multi_disk_locator_is_unsupported() {
    let entries = [TestEntry::stored("one", b"payload")];
    let mut v = build_zip64(&entries, b"");
    // the locator's total-disk count sits right before the classic trailer
    let n = v.len();
    v[n - 26..n - 22].copy_from_slice(&3u32.to_le_bytes());
    assert!(matches!(
        ZipArchive::new(v),
        Err(ZipError::UnsupportedArchive(_))
    ));
}

#[test]
fn archive_clone_is_independent() {
    let entries = [
        TestEntry::stored("a", b"first entry body"),
        TestEntry::stored("b", b"second entry body"),
    ];
    let v = build_zip(&entries, b"word", b"xx");
    let mut a1 = ZipArchive::new(v).unwrap();
    let mut a2 = a1.clone();
    assert_eq!(a1.len(), a2.len());
    assert_eq!(a1.offset(), a2.offset());
    assert_eq!(a1.comment, a2.comment);
    // reading through one clone does not move the other
    let mut f1 = a1.by_index(0).unwrap();
    let all1 = drain(&mut f1, 4).unwrap();
    let mut f2 = a2.by_index(0).unwrap();
    let all2 = drain(&mut f2, 100).unwrap();
    assert_eq!(all1, all2);
}
