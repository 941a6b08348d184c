//! End-to-end tests over hand-assembled ZIP byte images.

use std::io::Read;

use zip_reader::central::{ArchiveEntry, WalkItem};
use zip_reader::eocd::locate;
use zip_reader::extract::{extract, extract_entries, ExtractError};
use zip_reader::{central::walk, open};

fn push_u16(out: &mut Vec<u8>, x: u16) {
    out.extend_from_slice(&x.to_le_bytes());
}

fn push_u32(out: &mut Vec<u8>, x: u32) {
    out.extend_from_slice(&x.to_le_bytes());
}

fn local_header(name: &[u8], method: u16, csize: u32, usize_decl: u32) -> Vec<u8> {
    let mut h = Vec::new();
    push_u32(&mut h, 0x04034b50);
    push_u16(&mut h, 20); // version needed
    push_u16(&mut h, 0); // flags
    push_u16(&mut h, method);
    push_u16(&mut h, 0); // mod time
    push_u16(&mut h, 0); // mod date
    push_u32(&mut h, 0); // crc32
    push_u32(&mut h, csize);
    push_u32(&mut h, usize_decl);
    push_u16(&mut h, name.len() as u16);
    push_u16(&mut h, 0); // extra length
    h.extend_from_slice(name);
    h
}

fn central_header(name: &[u8], method: u16, csize: u32, usize_decl: u32, offset: u32) -> Vec<u8> {
    let mut h = Vec::new();
    push_u32(&mut h, 0x02014b50);
    push_u16(&mut h, 20); // version made by
    push_u16(&mut h, 20); // version needed
    push_u16(&mut h, 0); // flags
    push_u16(&mut h, method);
    push_u16(&mut h, 0); // mod time
    push_u16(&mut h, 0); // mod date
    push_u32(&mut h, 0); // crc32
    push_u32(&mut h, csize);
    push_u32(&mut h, usize_decl);
    push_u16(&mut h, name.len() as u16);
    push_u16(&mut h, 0); // extra length
    push_u16(&mut h, 0); // comment length
    push_u16(&mut h, 0); // disk number start
    push_u16(&mut h, 0); // internal attributes
    push_u32(&mut h, 0); // external attributes
    push_u32(&mut h, offset);
    h.extend_from_slice(name);
    h
}

fn eocd_record(total: u16, dir_size: u32, dir_offset: u32, comment: &[u8]) -> Vec<u8> {
    let mut r = Vec::new();
    push_u32(&mut r, 0x06054b50);
    push_u16(&mut r, 0); // disk number
    push_u16(&mut r, 0); // start disk
    push_u16(&mut r, total); // entries on this disk
    push_u16(&mut r, total); // total entries
    push_u32(&mut r, dir_size);
    push_u32(&mut r, dir_offset);
    push_u16(&mut r, comment.len() as u16);
    r.extend_from_slice(comment);
    r
}

/// Assemble a single-disk archive of the given files:
/// (name bytes, method, stored payload, declared uncompressed size).
fn build_archive(files: &[(&[u8], u16, &[u8], u32)]) -> Vec<u8> {
    let mut out = Vec::new();
    let mut offsets = Vec::new();
    for (name, method, payload, usize_decl) in files {
        offsets.push(out.len() as u32);
        out.extend_from_slice(&local_header(name, *method, payload.len() as u32, *usize_decl));
        out.extend_from_slice(payload);
    }
    let dir_offset = out.len() as u32;
    for (i, (name, method, payload, usize_decl)) in files.iter().enumerate() {
        out.extend_from_slice(&central_header(
            name,
            *method,
            payload.len() as u32,
            *usize_decl,
            offsets[i],
        ));
    }
    let dir_size = out.len() as u32 - dir_offset;
    out.extend_from_slice(&eocd_record(files.len() as u16, dir_size, dir_offset, b""));
    out
}

fn deflate_bytes(data: &[u8]) -> Vec<u8> {
    let mut encoder = flate2::read::DeflateEncoder::new(data, flate2::Compression::default());
    let mut out = Vec::new();
    encoder.read_to_end(&mut out).unwrap();
    out
}

fn entries_of(items: Vec<WalkItem>) -> Vec<ArchiveEntry> {
    let mut entries = Vec::new();
    for item in items {
        if let WalkItem::Entry(e) = item {
            entries.push(e);
        }
    }
    entries
}

#[test]
fn open_rejects_empty_input() {
    assert!(open(&Vec::new()).is_none());
}

#[test]
fn open_rejects_non_archive() {
    let junk: Vec<u8> = (0u16..2000).map(|i| (i % 251) as u8).collect();
    assert!(open(&junk).is_none());
}

#[test]
fn locate_parses_eocd_fields() {
    let archive = build_archive(&[
        (b"a.txt", 0, b"hello", 5),
        (b"b.txt", 0, b"zip", 3),
    ]);
    let record = locate(&archive).unwrap();
    assert_eq!(record.disk_number, 0);
    assert_eq!(record.start_disk, 0);
    assert_eq!(record.entries_on_this_disk, 2);
    assert_eq!(record.total_entries, 2);
    assert_eq!(record.comment_length, 0);
    let dir_offset = record.central_directory_offset as usize;
    let dir_end = dir_offset + record.central_directory_size as usize;
    assert_eq!(&archive[dir_offset..dir_offset + 4], &[0x50, 0x4b, 0x01, 0x02]);
    assert_eq!(&archive[dir_end..dir_end + 4], &[0x50, 0x4b, 0x05, 0x06]);
}

#[test]
fn locate_parses_eocd_with_trailing_comment() {
    let mut archive = build_archive(&[(b"a.txt", 0, b"hello", 5)]);
    // Rebuild the tail: same record, now carrying a comment.
    let eocd_start = archive.len() - 22;
    let record = locate(&archive).unwrap();
    archive.truncate(eocd_start);
    let dir_offset = record.central_directory_offset;
    let dir_size = record.central_directory_size;
    archive.extend_from_slice(&eocd_record(1, dir_size, dir_offset, b"archive comment"));
    let reread = locate(&archive).unwrap();
    assert_eq!(reread.total_entries, 1);
    assert_eq!(reread.comment_length, 15);
    assert_eq!(reread.central_directory_offset, dir_offset);
}

#[test]
fn eocd_scan_prefers_match_nearest_end() {
    // A decoy end-of-central-directory record sits before the real one, as
    // if its signature bytes appeared inside comment data preceding the
    // true record. The backward scan must settle on the later, real record.
    let payload = b"hello";
    let mut archive = local_header(b"a.txt", 0, 5, 5);
    archive.extend_from_slice(payload);
    let dir_offset = archive.len() as u32;
    archive.extend_from_slice(&central_header(b"a.txt", 0, 5, 5, 0));
    let dir_size = archive.len() as u32 - dir_offset;
    // Decoy record with nonsense fields.
    archive.extend_from_slice(&eocd_record(9, 0xdead, 0xbeef, b""));
    // Real record, closest to the end of the file.
    archive.extend_from_slice(&eocd_record(1, dir_size, dir_offset, b""));
    let record = locate(&archive).unwrap();
    assert_eq!(record.total_entries, 1);
    assert_eq!(record.central_directory_offset, dir_offset);
    assert_eq!(record.central_directory_size, dir_size);
    // The decoy does not disturb enumeration either.
    let items = open(&archive).unwrap();
    assert_eq!(items.len(), 1);
}

#[test]
fn eocd_beyond_search_window_is_not_found() {
    // The locator scans only a fixed 1024-byte tail window: a comment that
    // pushes the signature further than that from the end hides the record.
    let mut archive = build_archive(&[(b"a.txt", 0, b"hello", 5)]);
    let eocd_start = archive.len() - 22;
    let record = locate(&archive).unwrap();
    archive.truncate(eocd_start);
    let comment = vec![0u8; 1100];
    archive.extend_from_slice(&eocd_record(
        1,
        record.central_directory_size,
        record.central_directory_offset,
        &comment,
    ));
    assert!(locate(&archive).is_none());
    assert!(open(&archive).is_none());
}

#[test]
fn walk_returns_entries_in_directory_order() {
    let world = deflate_bytes(b"world world world");
    let archive = build_archive(&[
        (b"a.txt", 0, b"hello", 5),
        (b"b.txt", 8, &world, 17),
        (b"c.bin", 0, b"", 0),
    ]);
    let items = open(&archive).unwrap();
    assert_eq!(items.len(), 3);
    let entries = entries_of(items);
    assert_eq!(entries.len(), 3);
    assert_eq!(entries[0].name, "a.txt");
    assert_eq!(entries[0].compression_method, 0);
    assert_eq!(entries[0].compressed_size, 5);
    assert_eq!(entries[0].uncompressed_size, 5);
    assert_eq!(entries[0].local_header_offset, 0);
    assert_eq!(entries[1].name, "b.txt");
    assert_eq!(entries[1].compression_method, 8);
    assert_eq!(entries[1].compressed_size, world.len() as u32);
    assert_eq!(entries[1].uncompressed_size, 17);
    assert_eq!(entries[2].name, "c.bin");
    assert_eq!(entries[2].compressed_size, 0);
}

#[test]
fn entry_count_matches_eocd_total() {
    let archive = build_archive(&[
        (b"a.txt", 0, b"hello", 5),
        (b"b.txt", 0, b"zip", 3),
        (b"c.bin", 0, b"", 0),
    ]);
    let record = locate(&archive).unwrap();
    let items = open(&archive).unwrap();
    assert_eq!(items.len(), record.total_entries as usize);
    assert_eq!(record.entries_on_this_disk, record.total_entries);
}

#[test]
fn non_ascii_name_decodes_as_utf8() {
    let name = "na\u{ef}ve \u{2013} caf\u{e9}.txt";
    let archive = build_archive(&[(name.as_bytes(), 0, b"x", 1)]);
    let entries = entries_of(open(&archive).unwrap());
    assert_eq!(entries.len(), 1);
    assert_eq!(entries[0].name, name);
}

#[test]
fn malformed_name_is_recorded_and_siblings_parse() {
    let bad_name: &[u8] = &[0x62, 0xff, 0xfe, 0x64]; // not valid UTF-8
    let archive = build_archive(&[
        (b"a.txt", 0, b"hello", 5),
        (bad_name, 0, b"data", 4),
        (b"c.txt", 0, b"more", 4),
    ]);
    let record = locate(&archive).unwrap();
    let items = open(&archive).unwrap();
    assert_eq!(items.len(), 3);
    assert!(matches!(&items[0], WalkItem::Entry(e) if e.name == "a.txt"));
    let dir_offset = record.central_directory_offset as usize;
    let second_header = dir_offset + 46 + 5; // past the first header and its name
    assert!(matches!(
        &items[1],
        WalkItem::MalformedName { header_offset } if *header_offset == second_header
    ));
    assert!(matches!(&items[2], WalkItem::Entry(e) if e.name == "c.txt"));
}

#[test]
fn truncated_input_yields_parseable_prefix() {
    // No EOCD at all: the walker, pointed at the directory, stops cleanly
    // at the cut and yields exactly the entries before it.
    let archive = build_archive(&[
        (b"a.txt", 0, b"hello", 5),
        (b"b.txt", 0, b"zip", 3),
        (b"c.bin", 0, b"", 0),
    ]);
    let record = locate(&archive).unwrap();
    let dir_offset = record.central_directory_offset as usize;
    // Keep two full headers (46 fixed bytes + 5-byte name each) and 10
    // stray bytes of the third.
    let cut = dir_offset + 2 * (46 + 5) + 10;
    let truncated = archive[..cut].to_vec();
    let items = walk(&truncated, dir_offset);
    assert_eq!(items.len(), 2);
    assert!(matches!(&items[0], WalkItem::Entry(e) if e.name == "a.txt"));
    assert!(matches!(&items[1], WalkItem::Entry(e) if e.name == "b.txt"));
}

#[test]
fn corrupt_directory_signature_ends_walk_cleanly() {
    // EOCD present but the third header's signature is damaged: the walk
    // ends there with the two entries before it, and no error is raised.
    let mut archive = build_archive(&[
        (b"a.txt", 0, b"hello", 5),
        (b"b.txt", 0, b"zip", 3),
        (b"c.bin", 0, b"", 0),
    ]);
    let record = locate(&archive).unwrap();
    let third_header = record.central_directory_offset as usize + 2 * (46 + 5);
    archive[third_header] = 0x00;
    let items = open(&archive).unwrap();
    assert_eq!(items.len(), 2);
}

#[test]
fn store_entry_extracts_verbatim() {
    let archive = build_archive(&[(b"a.txt", 0, b"hello", 5)]);
    let entries = entries_of(open(&archive).unwrap());
    assert_eq!(entries[0].compressed_size, entries[0].uncompressed_size);
    let out = extract(&archive, &entries[0]).unwrap();
    assert_eq!(out.data, b"hello");
    assert!(!out.size_mismatch);
}

#[test]
fn store_entry_with_size_drift_is_reported_not_fatal() {
    let archive = build_archive(&[(b"a.txt", 0, b"hello", 99)]);
    let entries = entries_of(open(&archive).unwrap());
    let out = extract(&archive, &entries[0]).unwrap();
    assert_eq!(out.data, b"hello");
    assert!(out.size_mismatch);
}

#[test]
fn deflate_entry_round_trips() {
    let original = b"world world world";
    let compressed = deflate_bytes(original);
    let archive = build_archive(&[(b"b.txt", 8, &compressed, original.len() as u32)]);
    let entries = entries_of(open(&archive).unwrap());
    let out = extract(&archive, &entries[0]).unwrap();
    assert_eq!(out.data, original);
    assert!(!out.size_mismatch);
}

#[test]
fn deflate_size_drift_is_reported_not_fatal() {
    let original = b"squeeze me";
    let compressed = deflate_bytes(original);
    let archive = build_archive(&[(b"b.txt", 8, &compressed, original.len() as u32 + 1)]);
    let entries = entries_of(open(&archive).unwrap());
    let out = extract(&archive, &entries[0]).unwrap();
    assert_eq!(out.data, original);
    assert!(out.size_mismatch);
}

#[test]
fn malformed_deflate_stream_is_fatal_for_entry_only() {
    // 0x06 opens a deflate block of the reserved type: always malformed.
    let bad_stream: &[u8] = &[0x06, 0x00, 0x00, 0x00];
    let archive = build_archive(&[
        (b"bad.bin", 8, bad_stream, 4),
        (b"ok.txt", 0, b"fine", 4),
    ]);
    let entries = entries_of(open(&archive).unwrap());
    let results = extract_entries(&archive, &entries);
    assert_eq!(results.len(), 2);
    assert_eq!(results[0], Err(ExtractError::DecompressionFailure));
    assert_eq!(results[1].as_ref().unwrap().data, b"fine");
}

#[test]
fn unsupported_method_is_reported_and_siblings_extract() {
    let archive = build_archive(&[
        (b"a.txt", 0, b"hello", 5),
        (b"odd.bin", 99, b"????", 4),
        (b"c.txt", 0, b"tail", 4),
    ]);
    let entries = entries_of(open(&archive).unwrap());
    let results = extract_entries(&archive, &entries);
    assert_eq!(results.len(), 3);
    assert_eq!(results[0].as_ref().unwrap().data, b"hello");
    assert_eq!(results[1], Err(ExtractError::UnsupportedMethod(99)));
    assert_eq!(results[2].as_ref().unwrap().data, b"tail");
}

#[test]
fn invalid_local_header_is_skipped() {
    let mut archive = build_archive(&[(b"a.txt", 0, b"hello", 5)]);
    archive[0] = 0x00; // damage the local header signature
    let entries = entries_of(open(&archive).unwrap());
    assert_eq!(extract(&archive, &entries[0]), Err(ExtractError::InvalidLocalHeader));
}

#[test]
fn short_payload_is_fatal_for_entry() {
    // The central directory declares more payload bytes than exist after
    // the local header.
    let payload = b"abc";
    let mut archive = local_header(b"a.txt", 0, 3, 3);
    archive.extend_from_slice(payload);
    let dir_offset = archive.len() as u32;
    archive.extend_from_slice(&central_header(b"a.txt", 0, 60000, 3, 0));
    let dir_size = archive.len() as u32 - dir_offset;
    archive.extend_from_slice(&eocd_record(1, dir_size, dir_offset, b""));
    let entries = entries_of(open(&archive).unwrap());
    assert_eq!(entries[0].compressed_size, 60000);
    assert_eq!(extract(&archive, &entries[0]), Err(ExtractError::ShortPayloadRead));
}

#[test]
fn three_entry_scenario_extracts_exactly() {
    let world = b"world world world";
    let compressed = deflate_bytes(world);
    let archive = build_archive(&[
        (b"a.txt", 0, b"hello", 5),
        (b"b.txt", 8, &compressed, world.len() as u32),
        (b"c.bin", 0, b"", 0),
    ]);
    let entries = entries_of(open(&archive).unwrap());
    assert_eq!(entries.len(), 3);
    let results = extract_entries(&archive, &entries);
    assert_eq!(results.len(), 3);
    assert_eq!(results[0].as_ref().unwrap().data, b"hello");
    assert_eq!(results[1].as_ref().unwrap().data, world);
    assert_eq!(results[2].as_ref().unwrap().data, b"");
}
