use std::io::{Cursor, Read, Write};

use balapatch::engine::align_entries;
use balapatch::entry::{AlignError, ZipEntry};
use balapatch::zipalign::ZipAlign;

/// Builds an archive with the `zip` crate, the way a generic tool with no
/// alignment awareness would: `entries` gives name, stored-or-deflated, and
/// content.
fn build_archive(entries: &[(&str, bool, &[u8])]) -> Vec<u8> {
    let mut w = zip::ZipWriter::new(Cursor::new(Vec::new()));
    for (name, stored, content) in entries {
        let method = if *stored {
            zip::CompressionMethod::Stored
        } else {
            zip::CompressionMethod::Deflated
        };
        let opts = zip::write::FileOptions::default().compression_method(method);
        w.start_file(*name, opts).unwrap();
        w.write_all(content).unwrap();
    }
    w.finish().unwrap().into_inner()
}

fn align_bytes(input: &Vec<u8>, alignment: u64) -> Vec<u8> {
    let za = ZipAlign::new(String::from("in.apk"), Some(String::from("out.apk")), alignment);
    za.align(input, false, false).unwrap()
}

fn read_u16_le(bytes: &[u8], at: usize) -> u16 {
    u16::from_le_bytes([bytes[at], bytes[at + 1]])
}

#[test]
fn scenario_single_stored_entry_alignment_four() {
    // One stored entry named "a.txt" holding ten bytes; its data would
    // start at 30 + 5 (name) + 4 (extra header) = 39, so one padding byte
    // lands it on 40, a multiple of four.
    let input = build_archive(&[("a.txt", true, b"0123456789")]);
    let out = align_bytes(&input, 4);

    // The local header starts at offset 0; its extra-field length field
    // (offset 28) announces 4 + padding bytes, so padding is exactly 1.
    assert_eq!(read_u16_le(&out, 28), 5);

    // The rewritten archive parses, and its single entry starts at 40.
    let mut archive = zip::ZipArchive::new(Cursor::new(out.clone())).unwrap();
    assert_eq!(archive.len(), 1);
    let entry = archive.by_index(0).unwrap();
    assert_eq!(entry.name(), "a.txt");
    assert_eq!(entry.data_start(), 40);
    assert_eq!(entry.data_start() % 4, 0);
    drop(entry);

    // The verifier reports the result in order.
    let za = ZipAlign::new(String::from("out.apk"), None, 4);
    let (ok, lines) = za.verify_zip(&out, true).unwrap();
    assert!(ok);
    assert_eq!(lines.len(), 1);
    assert_eq!(lines[0], b"      40 a.txt (OK)".to_vec());
}

#[test]
fn alignment_postcondition_for_common_alignments() {
    let input = build_archive(&[
        ("a.txt", true, b"0123456789"),
        ("dir/long-name-entry.bin", true, &[7u8; 300]),
        ("compressed.txt", false, b"squeeze squeeze squeeze squeeze squeeze"),
        ("z", true, b""),
    ]);
    for alignment in [1u64, 2, 4, 16, 4096] {
        let out = align_bytes(&input, alignment);
        let mut archive = zip::ZipArchive::new(Cursor::new(out)).unwrap();
        for i in 0..archive.len() {
            let entry = archive.by_index(i).unwrap();
            if entry.compression() == zip::CompressionMethod::Stored {
                assert_eq!(entry.data_start() % alignment, 0);
            }
        }
    }
}

#[test]
fn round_trip_content_identity() {
    let contents: Vec<(&str, bool, &[u8])> = vec![
        ("a.txt", true, b"0123456789"),
        ("b/c.lua", false, b"return 1 + 1 + 1 + 1 + 1 + 1 + 1 + 1"),
        ("d.bin", true, &[0xAB; 1000]),
    ];
    let input = build_archive(&contents);
    let out = align_bytes(&input, 4096);
    let mut archive = zip::ZipArchive::new(Cursor::new(out)).unwrap();
    assert_eq!(archive.len(), contents.len());
    for (i, (name, _, content)) in contents.iter().enumerate() {
        let mut entry = archive.by_index(i).unwrap();
        assert_eq!(entry.name(), *name);
        let mut unpacked = Vec::new();
        entry.read_to_end(&mut unpacked).unwrap();
        assert_eq!(unpacked.as_slice(), *content);
    }
}

#[test]
fn idempotence_under_aligned_input() {
    let input = build_archive(&[
        ("a.txt", true, b"0123456789"),
        ("b.txt", true, b"more text here"),
        ("c.txt", false, b"compressed entry"),
    ]);
    for alignment in [4u64, 4096] {
        let out = align_bytes(&input, alignment);
        let za = ZipAlign::new(String::from("out.apk"), None, alignment);
        let (ok, _) = za.verify_zip(&out, false).unwrap();
        assert!(ok);
    }
}

#[test]
fn order_preservation() {
    let names = ["zzz.txt", "aaa.txt", "mmm/nnn.txt", "b.bin"];
    let entries: Vec<(&str, bool, &[u8])> =
        names.iter().map(|n| (*n, true, b"x".as_slice())).collect();
    let input = build_archive(&entries);
    let out = align_bytes(&input, 4);
    let mut archive = zip::ZipArchive::new(Cursor::new(out)).unwrap();
    let mut seen = Vec::new();
    for i in 0..archive.len() {
        seen.push(archive.by_index(i).unwrap().name().to_string());
    }
    assert_eq!(seen, names.iter().map(|n| n.to_string()).collect::<Vec<_>>());
}

#[test]
fn alignment_one_is_a_fixpoint_with_no_padding() {
    let input = build_archive(&[("a.txt", true, b"0123456789"), ("b.txt", false, b"deflated")]);
    let once = align_bytes(&input, 1);

    // Every entry's extra-field length field announces only the 4-byte
    // record header: no padding byte is ever inserted.
    let mut archive = zip::ZipArchive::new(Cursor::new(once.clone())).unwrap();
    for i in 0..archive.len() {
        let entry = archive.by_index(i).unwrap();
        let header_start = entry.header_start() as usize;
        assert_eq!(read_u16_le(&once, header_start + 28), 4);
    }
    drop(archive);

    // Realigning the engine's own output changes nothing at all.
    let twice = align_bytes(&once, 1);
    assert_eq!(once, twice);
}

#[test]
fn misaligned_archive_is_reported() {
    // A generic tool writes the first data at offset 30 + name length,
    // which is no multiple of 4096.
    let input = build_archive(&[("a.txt", true, b"0123456789")]);
    let za = ZipAlign::new(String::from("in.apk"), None, 4096);
    let (ok, lines) = za.verify_zip(&input, true).unwrap();
    assert!(!ok);
    assert_eq!(lines.len(), 1);
    let line = String::from_utf8(lines[0].clone()).unwrap();
    assert!(line.contains("(BAD - mod 4096 = "), "unexpected line: {line}");
    assert_eq!(line, "      35 a.txt (BAD - mod 4096 = 35)");
}

#[test]
fn compressed_entries_pass_verification_unconditionally() {
    let input = build_archive(&[("c.txt", false, b"deflate me, deflate me")]);
    let za = ZipAlign::new(String::from("in.apk"), None, 4096);
    let (ok, lines) = za.verify_zip(&input, true).unwrap();
    assert!(ok);
    assert_eq!(lines.len(), 1);
    let line = String::from_utf8(lines[0].clone()).unwrap();
    assert!(line.ends_with("c.txt (OK - compressed)"), "unexpected line: {line}");
}

#[test]
fn existing_output_is_refused_without_overwrite() {
    let input = build_archive(&[("a.txt", true, b"0123456789")]);
    let za = ZipAlign::new(String::from("in.apk"), Some(String::from("out.apk")), 4);
    assert_eq!(za.align(&input, true, false), Err(AlignError::OutputExists));
    assert!(za.align(&input, true, true).is_ok());
    assert!(za.align(&input, false, false).is_ok());
}

#[test]
fn zero_alignment_is_refused() {
    let input = build_archive(&[("a.txt", true, b"0123456789")]);
    let za = ZipAlign::new(String::from("in.apk"), None, 0);
    assert_eq!(za.align(&input, false, false), Err(AlignError::InvalidAlignment));
    assert_eq!(za.verify_zip(&input, false), Err(AlignError::InvalidAlignment));
}

#[test]
fn unparsable_input_is_a_format_error() {
    let garbage = vec![0x13u8; 64];
    let za = ZipAlign::new(String::from("in.apk"), None, 4);
    assert_eq!(za.align(&garbage, false, false), Err(AlignError::Format(None)));
    assert_eq!(za.verify_zip(&garbage, false), Err(AlignError::Format(None)));
}

#[test]
fn oversized_padding_is_an_overflow_not_a_truncation() {
    // With an alignment of 1 MiB the first entry would need far more than
    // 0xFFFB padding bytes; the engine refuses instead of truncating.
    let input = build_archive(&[("a.txt", true, b"0123456789")]);
    let za = ZipAlign::new(String::from("in.apk"), None, 1 << 20);
    assert_eq!(za.align(&input, false, false), Err(AlignError::PaddingOverflow(0)));
}

#[test]
fn permissions_are_preserved_and_defaulted() {
    // An entry written with explicit permissions keeps them; the engine
    // writes 0o644 where the source had none.
    let mut w = zip::ZipWriter::new(Cursor::new(Vec::new()));
    let opts = zip::write::FileOptions::default()
        .compression_method(zip::CompressionMethod::Stored)
        .unix_permissions(0o755);
    w.start_file("run.sh", opts).unwrap();
    w.write_all(b"#!/bin/sh\n").unwrap();
    let input = w.finish().unwrap().into_inner();

    let out = align_bytes(&input, 4);
    let mut archive = zip::ZipArchive::new(Cursor::new(out)).unwrap();
    let entry = archive.by_index(0).unwrap();
    assert_eq!(entry.unix_mode().map(|m| m & 0o777), Some(0o755));
}

fn plain_entry() -> ZipEntry {
    ZipEntry {
        name: b"e".to_vec(),
        method: 0,
        unix_mode: None,
        crc32: 0,
        uncompressed_size: 0,
        data: Vec::new(),
        data_start: 0,
    }
}

#[test]
fn too_many_entries_do_not_fit_the_trailer() {
    let mut entries = Vec::new();
    for _ in 0..0x10000 {
        entries.push(plain_entry());
    }
    assert_eq!(align_entries(&entries, 4).unwrap_err(), AlignError::TooLarge);
}

#[test]
fn oversized_entry_fields_are_a_format_error() {
    let mut e = plain_entry();
    e.unix_mode = Some(0x10000);
    assert_eq!(align_entries(&vec![e], 4).unwrap_err(), AlignError::Format(Some(0)));
}

#[test]
fn unreadable_entry_is_reported_with_its_index() {
    // The central directory still parses, but the first entry's local
    // header signature is ruined, so handing that entry out fails.
    let mut broken = build_archive(&[("a.txt", true, b"0123456789")]);
    broken[0] = 0xFF;
    let za = ZipAlign::new(String::from("in.apk"), None, 4);
    assert_eq!(za.align(&broken, false, false), Err(AlignError::Format(Some(0))));
    assert_eq!(za.verify_zip(&broken, false), Err(AlignError::Format(Some(0))));
}
