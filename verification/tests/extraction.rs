//! End-to-end tests of the extraction engine: synthetic archives of every
//! supported kind are built in memory (or by hand, where a writer refuses
//! duplicate names or no writer exists) and run through the engine.

use skindl::archive::{extract_archive, ArchiveType, ExtractError};
use skindl::file_map::FileMap;
use std::io::Write;

/// Standard reflected CRC-32 as zip and rar use it.
fn crc32(data: &[u8]) -> u32 {
    let mut crc: u32 = 0xFFFF_FFFF;
    for &byte in data {
        crc ^= byte as u32;
        for _ in 0..8 {
            if crc & 1 != 0 {
                crc = (crc >> 1) ^ 0xEDB8_8320;
            } else {
                crc >>= 1;
            }
        }
    }
    !crc
}

/// Build a zip archive with the zip crate's writer, stored entries.
fn build_zip(entries: &[(&str, &[u8])]) -> Vec<u8> {
    let cursor = std::io::Cursor::new(Vec::new());
    let mut writer = zip::ZipWriter::new(cursor);
    let options = zip::write::SimpleFileOptions::default()
        .compression_method(zip::CompressionMethod::Stored);
    for (name, data) in entries {
        writer.start_file(*name, options).unwrap();
        writer.write_all(data).unwrap();
    }
    writer.finish().unwrap().into_inner()
}

/// Build a stored zip archive by hand, so that duplicate entry names and
/// deliberately wrong checksums can be produced. `crc_override` replaces
/// the stored CRC-32 of the entry at the same index, where given.
fn build_zip_raw(entries: &[(&str, &[u8])], crc_override: &[Option<u32>]) -> Vec<u8> {
    let mut out: Vec<u8> = Vec::new();
    let mut central: Vec<u8> = Vec::new();
    let mut count: u16 = 0;
    for (idx, (name, data)) in entries.iter().enumerate() {
        let offset = out.len() as u32;
        let crc = match crc_override.get(idx).copied().flatten() {
            Some(c) => c,
            None => crc32(data),
        };
        let n = data.len() as u32;
        // local file header
        out.extend_from_slice(&0x0403_4b50u32.to_le_bytes());
        out.extend_from_slice(&20u16.to_le_bytes()); // version needed
        out.extend_from_slice(&0u16.to_le_bytes()); // flags
        out.extend_from_slice(&0u16.to_le_bytes()); // stored
        out.extend_from_slice(&0u16.to_le_bytes()); // time
        out.extend_from_slice(&0u16.to_le_bytes()); // date
        out.extend_from_slice(&crc.to_le_bytes());
        out.extend_from_slice(&n.to_le_bytes());
        out.extend_from_slice(&n.to_le_bytes());
        out.extend_from_slice(&(name.len() as u16).to_le_bytes());
        out.extend_from_slice(&0u16.to_le_bytes());
        out.extend_from_slice(name.as_bytes());
        out.extend_from_slice(data);
        // central directory entry
        central.extend_from_slice(&0x0201_4b50u32.to_le_bytes());
        central.extend_from_slice(&20u16.to_le_bytes()); // made by
        central.extend_from_slice(&20u16.to_le_bytes()); // needed
        central.extend_from_slice(&0u16.to_le_bytes());
        central.extend_from_slice(&0u16.to_le_bytes());
        central.extend_from_slice(&0u16.to_le_bytes());
        central.extend_from_slice(&0u16.to_le_bytes());
        central.extend_from_slice(&crc.to_le_bytes());
        central.extend_from_slice(&n.to_le_bytes());
        central.extend_from_slice(&n.to_le_bytes());
        central.extend_from_slice(&(name.len() as u16).to_le_bytes());
        central.extend_from_slice(&0u16.to_le_bytes());
        central.extend_from_slice(&0u16.to_le_bytes());
        central.extend_from_slice(&0u16.to_le_bytes());
        central.extend_from_slice(&0u16.to_le_bytes());
        central.extend_from_slice(&0u32.to_le_bytes());
        central.extend_from_slice(&offset.to_le_bytes());
        central.extend_from_slice(name.as_bytes());
        count += 1;
    }
    let cd_offset = out.len() as u32;
    let cd_size = central.len() as u32;
    out.extend_from_slice(&central);
    // end of central directory
    out.extend_from_slice(&0x0605_4b50u32.to_le_bytes());
    out.extend_from_slice(&0u16.to_le_bytes());
    out.extend_from_slice(&0u16.to_le_bytes());
    out.extend_from_slice(&count.to_le_bytes());
    out.extend_from_slice(&count.to_le_bytes());
    out.extend_from_slice(&cd_size.to_le_bytes());
    out.extend_from_slice(&cd_offset.to_le_bytes());
    out.extend_from_slice(&0u16.to_le_bytes());
    out
}

/// Build a 7z archive in memory with the sevenz writer.
fn build_7z(entries: &[(&str, &[u8])]) -> Vec<u8> {
    let cursor = std::io::Cursor::new(Vec::new());
    let mut writer = sevenz_rust::SevenZWriter::new(cursor).unwrap();
    for (name, data) in entries {
        let mut entry = sevenz_rust::SevenZArchiveEntry::new();
        entry.name = (*name).to_string();
        if data.is_empty() {
            writer.push_archive_entry::<&[u8]>(entry, None).unwrap();
        } else {
            writer.push_archive_entry(entry, Some(*data)).unwrap();
        }
    }
    writer.finish().unwrap().into_inner()
}

/// One header block of the legacy rar format: the 16-bit header checksum is
/// the low half of the CRC-32 of everything after the checksum field.
fn rar_block(head_type: u8, flags: u16, body: &[u8]) -> Vec<u8> {
    let head_size = (7 + body.len()) as u16;
    let mut tail: Vec<u8> = Vec::new();
    tail.push(head_type);
    tail.extend_from_slice(&flags.to_le_bytes());
    tail.extend_from_slice(&head_size.to_le_bytes());
    tail.extend_from_slice(body);
    let crc = (crc32(&tail) & 0xFFFF) as u16;
    let mut out: Vec<u8> = Vec::new();
    out.extend_from_slice(&crc.to_le_bytes());
    out.extend_from_slice(&tail);
    out
}

/// Build a legacy-format rar archive by hand with stored entries; no writer
/// library exists for this format.
fn build_rar(entries: &[(&str, &[u8])]) -> Vec<u8> {
    let mut out: Vec<u8> = vec![0x52, 0x61, 0x72, 0x21, 0x1A, 0x07, 0x00];
    out.extend_from_slice(&rar_block(0x73, 0x0000, &[0u8; 6]));
    for (name, data) in entries {
        let mut body: Vec<u8> = Vec::new();
        body.extend_from_slice(&(data.len() as u32).to_le_bytes()); // packed
        body.extend_from_slice(&(data.len() as u32).to_le_bytes()); // unpacked
        body.push(2); // host os
        body.extend_from_slice(&crc32(data).to_le_bytes());
        body.extend_from_slice(&0u32.to_le_bytes()); // file time
        body.push(20); // unpack version
        body.push(0x30); // stored
        body.extend_from_slice(&(name.len() as u16).to_le_bytes());
        body.extend_from_slice(&0x20u32.to_le_bytes()); // attributes
        body.extend_from_slice(name.as_bytes());
        out.extend_from_slice(&rar_block(0x74, 0x8000, &body));
        out.extend_from_slice(data);
    }
    out
}

fn temp_dir_string(dir: &tempfile::TempDir) -> String {
    dir.path().to_str().unwrap().to_string()
}

fn files_left_in(dir: &tempfile::TempDir) -> usize {
    walkdir::WalkDir::new(dir.path())
        .min_depth(1)
        .into_iter()
        .count()
}

fn extract(data: &[u8], kind: ArchiveType, dir: &tempfile::TempDir) -> Result<FileMap, ExtractError> {
    extract_archive(data, kind, &temp_dir_string(dir))
}

#[test]
fn zip_roundtrip_filters_wanted_entry() {
    let dir = tempfile::TempDir::new().unwrap();
    let content = b"character bytes";
    let data = build_zip(&[("a.cbb", content as &[u8]), ("b.txt", b"irrelevant")]);
    let map = extract(&data, ArchiveType::Zip, &dir).unwrap();
    assert_eq!(map.len(), 1);
    assert_eq!(map.get("a.cbb").unwrap().as_slice(), content);
    assert!(map.get("b.txt").is_none());
}

#[test]
fn sevenz_roundtrip_filters_wanted_entry() {
    let dir = tempfile::TempDir::new().unwrap();
    let content = b"seven zip payload";
    let data = build_7z(&[("a.cbb", content as &[u8]), ("b.txt", b"irrelevant")]);
    let map = extract(&data, ArchiveType::SevenZ, &dir).unwrap();
    assert_eq!(map.len(), 1);
    assert_eq!(map.get("a.cbb").unwrap().as_slice(), content);
    assert!(map.get("b.txt").is_none());
}

#[test]
fn rar_roundtrip_filters_wanted_entry() {
    let dir = tempfile::TempDir::new().unwrap();
    let content = b"rar payload";
    let data = build_rar(&[("a.cbb", content as &[u8]), ("b.txt", b"irrelevant")]);
    let map = extract(&data, ArchiveType::Rar, &dir).unwrap();
    assert_eq!(map.len(), 1);
    assert_eq!(map.get("a.cbb").unwrap().as_slice(), content);
    assert!(map.get("b.txt").is_none());
}

#[test]
fn membership_follows_suffix_whitelist() {
    let dir = tempfile::TempDir::new().unwrap();
    let data = build_zip(&[
        ("a.cbb", b"one" as &[u8]),
        ("over.json", b"{}"),
        ("c.txt", b"no"),
        ("d.cbbx", b"no"),
        ("e.CBB", b"case sensitive"),
        ("nested/deep/f.cbb", b"two"),
    ]);
    let map = extract(&data, ArchiveType::Zip, &dir).unwrap();
    assert_eq!(map.len(), 3);
    assert!(map.get("a.cbb").is_some());
    assert!(map.get("over.json").is_some());
    assert!(map.get("nested/deep/f.cbb").is_some());
    assert!(map.get("c.txt").is_none());
    assert!(map.get("d.cbbx").is_none());
    assert!(map.get("e.CBB").is_none());
}

fn collect_sorted(map: &FileMap) -> Vec<(String, Vec<u8>)> {
    let mut pairs: Vec<(String, Vec<u8>)> = Vec::new();
    let mut i = 0;
    while i < map.len() {
        let name = map.name_at(i).clone();
        let bytes = map.get(&name).unwrap().clone();
        pairs.push((name, bytes));
        i += 1;
    }
    pairs.sort();
    pairs
}

#[test]
fn extraction_is_idempotent_across_calls() {
    let dir = tempfile::TempDir::new().unwrap();
    for kind_data in [
        (ArchiveType::Zip, build_zip(&[("a.cbb", b"aa" as &[u8]), ("b.json", b"bb")])),
        (ArchiveType::SevenZ, build_7z(&[("a.cbb", b"aa" as &[u8]), ("b.json", b"bb")])),
        (ArchiveType::Rar, build_rar(&[("a.cbb", b"aa" as &[u8]), ("b.json", b"bb")])),
    ] {
        let (kind, data) = kind_data;
        let first = extract(&data, kind, &dir).unwrap();
        let second = extract(&data, kind, &dir).unwrap();
        assert_eq!(collect_sorted(&first), collect_sorted(&second));
    }
}

#[test]
fn duplicate_name_later_entry_wins_zip() {
    let dir = tempfile::TempDir::new().unwrap();
    let data = build_zip_raw(
        &[("x.cbb", b"first" as &[u8]), ("x.cbb", b"second")],
        &[None, None],
    );
    for _ in 0..3 {
        let map = extract(&data, ArchiveType::Zip, &dir).unwrap();
        assert_eq!(map.len(), 1);
        assert_eq!(map.get("x.cbb").unwrap().as_slice(), b"second");
    }
}

#[test]
fn duplicate_name_later_entry_wins_sevenz() {
    let dir = tempfile::TempDir::new().unwrap();
    let data = build_7z(&[("x.cbb", b"first" as &[u8]), ("x.cbb", b"second")]);
    for _ in 0..3 {
        let map = extract(&data, ArchiveType::SevenZ, &dir).unwrap();
        assert_eq!(map.len(), 1);
        assert_eq!(map.get("x.cbb").unwrap().as_slice(), b"second");
    }
}

#[test]
fn duplicate_name_later_entry_wins_rar() {
    let dir = tempfile::TempDir::new().unwrap();
    let data = build_rar(&[("x.cbb", b"first" as &[u8]), ("x.cbb", b"second")]);
    for _ in 0..3 {
        let map = extract(&data, ArchiveType::Rar, &dir).unwrap();
        assert_eq!(map.len(), 1);
        assert_eq!(map.get("x.cbb").unwrap().as_slice(), b"second");
    }
}

#[test]
fn zero_size_entry_extracts_as_empty_bytes() {
    let dir = tempfile::TempDir::new().unwrap();
    let zip_data = build_zip(&[("e.cbb", b"" as &[u8])]);
    let map = extract(&zip_data, ArchiveType::Zip, &dir).unwrap();
    assert_eq!(map.get("e.cbb").unwrap().len(), 0);

    let sz_data = build_7z(&[("e.cbb", b"" as &[u8])]);
    let map = extract(&sz_data, ArchiveType::SevenZ, &dir).unwrap();
    assert_eq!(map.get("e.cbb").unwrap().len(), 0);

    let rar_data = build_rar(&[("e.cbb", b"" as &[u8])]);
    let map = extract(&rar_data, ArchiveType::Rar, &dir).unwrap();
    assert_eq!(map.get("e.cbb").unwrap().len(), 0);
}

#[test]
fn truncated_archives_error_rather_than_succeed() {
    let dir = tempfile::TempDir::new().unwrap();
    for kind_data in [
        (ArchiveType::Zip, build_zip(&[("a.cbb", b"payload bytes" as &[u8])])),
        (ArchiveType::SevenZ, build_7z(&[("a.cbb", b"payload bytes" as &[u8])])),
        (ArchiveType::Rar, build_rar(&[("a.cbb", b"payload bytes" as &[u8])])),
    ] {
        let (kind, mut data) = kind_data;
        data.truncate(data.len() - 1);
        let err = extract(&data, kind, &dir).unwrap_err();
        assert!(matches!(
            err,
            ExtractError::MalformedContainer | ExtractError::DecodeFailure
        ));
    }
}

#[test]
fn garbage_bytes_are_malformed_for_every_kind() {
    let dir = tempfile::TempDir::new().unwrap();
    let garbage = b"this is not an archive of any kind at all";
    for kind in [ArchiveType::Zip, ArchiveType::Rar, ArchiveType::SevenZ] {
        let err = extract(garbage, kind, &dir).unwrap_err();
        assert_eq!(err, ExtractError::MalformedContainer);
    }
}

#[test]
fn corrupt_entry_checksum_is_a_decode_failure() {
    let dir = tempfile::TempDir::new().unwrap();
    let data = build_zip_raw(&[("a.cbb", b"checked bytes" as &[u8])], &[Some(0xDEAD_BEEF)]);
    let err = extract(&data, ArchiveType::Zip, &dir).unwrap_err();
    assert_eq!(err, ExtractError::DecodeFailure);
}

#[test]
fn unwritable_temp_dir_is_an_io_failure() {
    let data = build_rar(&[("a.cbb", b"bytes" as &[u8])]);
    let err = extract_archive(&data, ArchiveType::Rar, "/nonexistent-temp-dir-for-sure");
    assert_eq!(err.unwrap_err(), ExtractError::IoFailure);
}

#[test]
fn no_temp_files_remain_after_success_or_failure() {
    let dir = tempfile::TempDir::new().unwrap();
    let good = build_rar(&[("a.cbb", b"rar payload" as &[u8]), ("b.txt", b"skip me")]);
    extract(&good, ArchiveType::Rar, &dir).unwrap();
    assert_eq!(files_left_in(&dir), 0);

    let mut truncated = build_rar(&[("a.cbb", b"rar payload" as &[u8])]);
    truncated.truncate(truncated.len() - 1);
    extract(&truncated, ArchiveType::Rar, &dir).unwrap_err();
    assert_eq!(files_left_in(&dir), 0);

    let garbage = b"not a rar archive";
    extract(garbage, ArchiveType::Rar, &dir).unwrap_err();
    assert_eq!(files_left_in(&dir), 0);

    let zip_data = build_zip(&[("a.cbb", b"zzz" as &[u8])]);
    extract(&zip_data, ArchiveType::Zip, &dir).unwrap();
    let sz_data = build_7z(&[("a.cbb", b"zzz" as &[u8])]);
    extract(&sz_data, ArchiveType::SevenZ, &dir).unwrap();
    assert_eq!(files_left_in(&dir), 0);
}
