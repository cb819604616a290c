use satsuma_core::convert::archive::{
    account_uncompressed, bare_gzip_entries, ensure_unique_paths, gzipped_tarball_stem, plan_convert,
    plan_extract, push_entry, rar_entry_step, rar_failure, rar_name_check, rar_opened_check, read_bounded,
    reject_oversized_entry, sanitize_path, staging_dir_name, Entry, Format, RarEntryStep, MAX_ENTRY_COUNT, MAX_ENTRY_UNCOMPRESSED_BYTES, MAX_TOTAL_UNCOMPRESSED_BYTES,
};
use satsuma_core::convert::error::ConvertError;
use satsuma_core::convert::naming::{output_dir_path, output_path, unique_output_path};
use satsuma_core::convert::rar5;

fn names(v: &[&str]) -> Vec<String> {
    v.iter().map(|s| s.to_string()).collect()
}

fn entry(path: &str, data: &[u8]) -> Entry {
    Entry { path: path.to_string(), is_dir: false, data: data.to_vec() }
}

#[test]
fn swaps_the_extension_when_the_target_does_not_exist() {
    assert_eq!(output_path("/tmp/d/cat.jpg", "png", &names(&["cat.jpg"])), "/tmp/d/cat.png");
}

#[test]
fn appends_a_numeric_suffix_on_collision() {
    assert_eq!(output_path("/tmp/d/cat.jpg", "png", &names(&["cat.jpg", "cat.png"])), "/tmp/d/cat 2.png");
}

#[test]
fn keeps_incrementing_past_multiple_collisions() {
    let existing = names(&["cat.jpg", "cat.png", "cat 2.png", "cat 3.png"]);
    assert_eq!(output_path("/tmp/d/cat.jpg", "png", &existing), "/tmp/d/cat 4.png");
}

#[test]
fn preserves_the_full_base_name_including_spaces() {
    assert_eq!(
        output_path("/tmp/d/holiday photo.jpeg", "webp", &names(&["holiday photo.jpeg"])),
        "/tmp/d/holiday photo.webp"
    );
}

#[test]
fn output_dir_path_names_a_sibling_folder_and_avoids_collisions() {
    assert_eq!(output_dir_path("/tmp/d/Report.pdf", "JPG Pages", &names(&["Report.pdf"])), "/tmp/d/Report JPG Pages");
    assert_eq!(
        output_dir_path("/tmp/d/Report.pdf", "JPG Pages", &names(&["Report.pdf", "Report JPG Pages"])),
        "/tmp/d/Report JPG Pages 2"
    );
    assert_eq!(
        output_dir_path("/d/Report.v2.pdf", "JPG Pages", &names(&["Report.v2.pdf", "Report.v2 JPG Pages"])),
        "/d/Report.v2 JPG Pages 2"
    );
}

#[test]
fn naming_handles_bare_names_dotted_stems_and_a_gap_in_the_numbers() {
    assert_eq!(output_path("cat.jpg", "png", &[]), "cat.png");
    assert_eq!(unique_output_path("C:\\out\\", "backup", "zip", &names(&["backup.zip", "backup 3.zip"])), "C:\\out\\backup 2.zip");
    assert_eq!(output_path("/a/backup.tar.gz", "zip", &[]), "/a/backup.tar.zip");
}

#[test]
fn sanitize_path_strips_traversal_and_normalizes_separators() {
    assert_eq!(sanitize_path("a/b/c.txt").unwrap(), "a/b/c.txt");
    assert_eq!(sanitize_path("a\\b\\c.txt").unwrap(), "a/b/c.txt");
    assert_eq!(sanitize_path("../../etc/passwd").unwrap(), "etc/passwd");
    assert_eq!(sanitize_path("/etc/passwd").unwrap(), "etc/passwd");
    assert_eq!(sanitize_path("./a/./b").unwrap(), "a/b");
    assert_eq!(sanitize_path("../..").unwrap(), "_");
}

#[test]
fn sanitize_path_rejects_windows_drive_letter_prefixes() {
    assert!(sanitize_path("C:/evil/payload.exe").is_err());
    assert!(sanitize_path("c:\\evil\\payload.exe").is_err());
    assert!(sanitize_path("Z:/x.txt").is_err());
    assert!(sanitize_path("folder/C:/payload.exe").is_err());
    assert_eq!(sanitize_path("a:b.txt").unwrap(), "a:b.txt");
    assert_eq!(sanitize_path("normal/file.txt").unwrap(), "normal/file.txt");
}

#[test]
fn sanitize_path_error_quotes_the_raw_path() {
    match sanitize_path("C:/evil") {
        Err(ConvertError::Other(m)) => assert_eq!(m, "refusing archive entry with a drive-letter path: \"C:/evil\""),
        _ => panic!("expected a rejection"),
    }
    assert_eq!(sanitize_path("").unwrap(), "_");
    assert_eq!(sanitize_path("a//b/..../c").unwrap(), "a/b/..../c");
}

#[test]
fn read_bounded_rejects_a_stream_longer_than_the_limit_and_passes_an_in_limit_one() {
    let over = read_bounded(b"01234".to_vec(), 4, "test entry").unwrap_err();
    assert!(matches!(over, ConvertError::Other(_)));
    assert!(over.message().contains("4-byte per-entry limit"));
    assert_eq!(over.message(), "test entry decompresses to more than the 4-byte per-entry limit");
    let within = read_bounded(b"0123".to_vec(), 4, "test entry").unwrap();
    assert_eq!(within, b"0123".to_vec());
}

#[test]
fn reject_oversized_entry_rejects_a_declared_size_over_the_per_entry_limit() {
    assert!(reject_oversized_entry(MAX_ENTRY_UNCOMPRESSED_BYTES).is_ok());
    let over = reject_oversized_entry(MAX_ENTRY_UNCOMPRESSED_BYTES + 1).unwrap_err();
    assert!(matches!(over, ConvertError::Other(_)));
    assert_eq!(
        over.message(),
        "archive entry claims 268435457 uncompressed bytes, exceeding the 268435456-byte per-entry limit"
    );
}

#[test]
fn account_uncompressed_rejects_once_the_total_passes_the_archive_wide_budget() {
    let mut total: u64 = MAX_TOTAL_UNCOMPRESSED_BYTES - 1;
    account_uncompressed(&mut total, 1).unwrap();
    assert_eq!(total, MAX_TOTAL_UNCOMPRESSED_BYTES);
    let over = account_uncompressed(&mut total, 1).unwrap_err();
    assert!(matches!(over, ConvertError::Other(_)));
    assert_eq!(total, MAX_TOTAL_UNCOMPRESSED_BYTES + 1);
}

#[test]
fn push_entry_stops_at_the_entry_cap() {
    let mut entries: Vec<Entry> = Vec::new();
    for i in 0..MAX_ENTRY_COUNT {
        push_entry(&mut entries, entry(&format!("f{i}"), b"")).unwrap();
    }
    let err = push_entry(&mut entries, entry("one-too-many", b"x")).unwrap_err();
    assert_eq!(err.message(), "archive contains more than 100000 entries");
    assert_eq!(entries.len(), MAX_ENTRY_COUNT);
}

#[test]
fn ensure_unique_paths_folds_ascii_case() {
    assert!(ensure_unique_paths(&[entry("a.txt", b"1"), entry("b.txt", b"2")]).is_ok());
    match ensure_unique_paths(&[entry("Readme.md", b"1"), entry("x", b""), entry("readme.md", b"2")]) {
        Err(ConvertError::Other(m)) => assert_eq!(
            m,
            "refusing archive with duplicate entry path \"readme.md\" (two entries sanitize to the same name)"
        ),
        _ => panic!("expected a duplicate rejection"),
    }
}

#[test]
fn gzipped_tarball_stem_strips_a_trailing_tar_in_any_case() {
    assert_eq!(gzipped_tarball_stem("/x/backup.tar.gz"), Some("backup".to_string()));
    assert_eq!(gzipped_tarball_stem("/x/backup.TAR.tgz"), Some("backup".to_string()));
    assert_eq!(gzipped_tarball_stem("/x/notes.txt.gz"), None);
    assert_eq!(gzipped_tarball_stem("/x/"), None);
}

#[test]
fn bare_gzip_entry_is_named_from_the_header_then_the_stem() {
    let v = bare_gzip_entries(b"hi".to_vec(), Some("../inner.txt".to_string()), "/x/a.gz").unwrap();
    assert_eq!(v.len(), 1);
    assert_eq!(v[0].path, "inner.txt");
    assert_eq!(v[0].data, b"hi".to_vec());
    let v = bare_gzip_entries(b"hi".to_vec(), None, "/x/notes.txt.gz").unwrap();
    assert_eq!(v[0].path, "notes.txt");
}

#[test]
fn plan_convert_names_the_gzip_and_tarball_outputs() {
    let existing = names(&["a.zip", "a.tar.gz"]);
    let plan = plan_convert("/d/a.zip", "gz", "/d/a.gz", &existing).unwrap();
    assert_eq!(plan.source_format, Format::Zip);
    assert_eq!(plan.target_format, Format::Gzip);
    assert_eq!(plan.destination, "/d/a 2.tar.gz");
    let plan = plan_convert("/d/backup.tar.gz", "ZIP", "/d/backup.tar.zip", &[]).unwrap();
    assert_eq!(plan.destination, "/d/backup.zip");
    let plan = plan_convert("/d/a.tar", "rar", "/d/a.rar", &[]).unwrap();
    assert_eq!(plan.destination, "/d/a.rar");
}

#[test]
fn plan_convert_rejects_bad_formats() {
    assert!(matches!(plan_convert("/d/a.zip", "zip", "/d/a.zip", &[]), Err(ConvertError::UnsupportedConversion { .. })));
    assert!(matches!(plan_convert("/d/a.zip", "tgz", "/d/a.tgz", &[]), Err(ConvertError::UnsupportedConversion { .. })));
    match plan_convert("/d/a.7z", "zip", "/d/a.zip", &[]) {
        Err(e) => assert_eq!(e.message(), "invalid source file: unrecognized archive extension: .7z"),
        Ok(_) => panic!("expected an invalid source"),
    }
}

#[test]
fn plan_extract_picks_a_sibling_folder() {
    let (f, dest) = plan_extract("/d/pack.rar", &names(&["pack.rar", "pack Extracted"])).unwrap();
    assert_eq!(f, Format::Rar);
    assert_eq!(dest, "/d/pack Extracted 2");
    assert!(plan_extract("/d/pack", &[]).is_err());
}

fn decode_vint(buf: &[u8]) -> (u64, usize) {
    let mut value = 0u64;
    let mut shift = 0;
    for (i, &byte) in buf.iter().enumerate() {
        value |= ((byte & 0x7f) as u64) << shift;
        if byte & 0x80 == 0 {
            return (value, i + 1);
        }
        shift += 7;
    }
    panic!("truncated vint");
}

#[test]
fn rar5_archive_has_the_documented_layout() {
    let entries = vec![
        Entry { path: "sub".to_string(), is_dir: true, data: Vec::new() },
        entry("sub/hello.txt", b"hello from satsuma\n"),
    ];
    let bytes = rar5::write(&entries, 1_700_000_000);
    assert_eq!(&bytes[..8], &[0x52, 0x61, 0x72, 0x21, 0x1A, 0x07, 0x01, 0x00]);
    let mut pos = 8;
    let mut types = Vec::new();
    while pos < bytes.len() {
        let crc = u32::from_le_bytes([bytes[pos], bytes[pos + 1], bytes[pos + 2], bytes[pos + 3]]);
        let (size, n) = decode_vint(&bytes[pos + 4..]);
        let header = &bytes[pos + 4..pos + 4 + n + size as usize];
        assert_eq!(crc, crc32fast::hash(header));
        let body = &header[n..];
        let (kind, a) = decode_vint(body);
        let (flags, b) = decode_vint(&body[a..]);
        types.push(kind);
        let mut data_len = 0usize;
        if flags & 2 != 0 {
            data_len = decode_vint(&body[a + b..]).0 as usize;
        }
        pos += 4 + header.len() + data_len;
    }
    assert_eq!(pos, bytes.len());
    assert_eq!(types, vec![1, 2, 2, 5]);
    let tail = b"hello from satsuma\n";
    assert!(bytes.windows(tail.len()).any(|w| w == tail));
}

#[test]
fn entry_collector_keeps_entries_in_order_and_counts_file_bytes() {
    let mut c = satsuma_core::convert::archive::EntryCollector::new();
    c.add_dir("folder".to_string()).unwrap();
    c.add_file("folder/a.txt".to_string(), b"hello".to_vec()).unwrap();
    let entries = c.finish().unwrap();
    assert_eq!(entries.len(), 2);
    assert!(entries[0].is_dir);
    assert_eq!(entries[1].path, "folder/a.txt");
    assert_eq!(entries[1].data, b"hello");
}

#[test]
fn entry_collector_refuses_case_colliding_paths() {
    let mut c = satsuma_core::convert::archive::EntryCollector::new();
    c.add_file("Readme.md".to_string(), Vec::new()).unwrap();
    c.add_file("readme.md".to_string(), Vec::new()).unwrap();
    match c.finish() {
        Err(satsuma_core::convert::error::ConvertError::Other(m)) => assert!(m.contains("duplicate entry path")),
        other => panic!("unexpected {:?}", other.map(|v| v.len())),
    }
}

#[test]
fn entry_collector_refuses_past_the_total_budget() {
    let mut c = satsuma_core::convert::archive::EntryCollector::new();
    let big = vec![0u8; 300 * 1024 * 1024];
    c.add_file("a".to_string(), big.clone()).unwrap();
    match c.add_file("b".to_string(), big) {
        Err(satsuma_core::convert::error::ConvertError::Other(m)) => {
            assert_eq!(m, "archive decompresses to more than the 536870912-byte total limit")
        }
        other => panic!("unexpected {other:?}"),
    }
}

#[test]
fn looks_like_tar_tells_tarballs_from_other_payloads() {
    let mut builder = tar::Builder::new(Vec::new());
    let mut header = tar::Header::new_gnu();
    header.set_size(5);
    header.set_path("a.txt").unwrap();
    header.set_cksum();
    builder.append(&header, &b"hello"[..]).unwrap();
    let bytes = builder.into_inner().unwrap();
    assert!(satsuma_core::convert::archive::looks_like_tar(&bytes));
    assert!(!satsuma_core::convert::archive::looks_like_tar(b"just some text"));
    assert!(!satsuma_core::convert::archive::looks_like_tar(&[0u8; 1024]));
}

fn other_message(r: Result<(), ConvertError>) -> String {
    match r {
        Err(ConvertError::Other(m)) => m,
        _ => panic!("expected a refusal"),
    }
}

#[test]
fn rar_archives_split_or_encrypted_are_refused() {
    assert!(rar_name_check(false).is_ok());
    assert_eq!(other_message(rar_name_check(true)), "multivolume RAR archives (.partN.rar / .rNN) are not supported");
    assert!(rar_opened_check(false, false).is_ok());
    assert_eq!(other_message(rar_opened_check(true, true)), "password-protected RAR archives are not supported");
    assert_eq!(other_message(rar_opened_check(false, true)), "multivolume RAR archives are not supported");
}

#[test]
fn rar_entries_are_refused_skipped_or_read_by_their_header() {
    match rar_entry_step(true, false, 1, "C:/evil") {
        Err(ConvertError::Other(m)) => assert_eq!(m, "password-protected RAR archives are not supported"),
        _ => panic!("an encrypted entry is refused first"),
    }
    match rar_entry_step(false, false, 1, "C:/evil") {
        Err(ConvertError::Other(m)) => assert!(m.starts_with("refusing archive entry with a drive-letter path")),
        _ => panic!("a drive-letter name is refused"),
    }
    let (step, path) = rar_entry_step(false, true, 0, "docs\\sub").unwrap();
    assert_eq!(step, RarEntryStep::SkipDirectory);
    assert_eq!(path, "docs/sub");
    let (step, path) = rar_entry_step(false, false, MAX_ENTRY_UNCOMPRESSED_BYTES, "../a.txt").unwrap();
    assert_eq!(step, RarEntryStep::ReadFile);
    assert_eq!(path, "a.txt");
    match rar_entry_step(false, false, MAX_ENTRY_UNCOMPRESSED_BYTES + 1, "big.bin") {
        Err(ConvertError::Other(m)) => assert_eq!(
            m,
            "archive entry claims 268435457 uncompressed bytes, exceeding the 268435456-byte per-entry limit"
        ),
        _ => panic!("an oversized entry is refused"),
    }
}

#[test]
fn rar_library_failures_become_errors() {
    match rar_failure(true, "bad password".to_string()) {
        ConvertError::Other(m) => assert_eq!(m, "password-protected RAR archives are not supported"),
        _ => panic!("a password failure is refused as unsupported"),
    }
    match rar_failure(false, "checksum mismatch".to_string()) {
        ConvertError::Decode(d) => assert_eq!(d, "RAR error: checksum mismatch"),
        _ => panic!("other failures are read errors"),
    }
}

#[test]
fn staging_directory_takes_the_first_free_numbered_name() {
    assert_eq!(staging_dir_name("pack Extracted", &names(&["pack.zip"])), Some(".pack Extracted.tmp-0".to_string()));
    assert_eq!(
        staging_dir_name("pack Extracted", &names(&[".pack Extracted.tmp-0", ".pack Extracted.tmp-1", ".pack Extracted.tmp-3"])),
        Some(".pack Extracted.tmp-2".to_string())
    );
}

fn reference_crc32(bytes: &[u8]) -> u32 {
    let mut c: u32 = 0xFFFF_FFFF;
    for &b in bytes {
        c ^= b as u32;
        for _ in 0..8 {
            c = if c & 1 == 1 { (c >> 1) ^ 0xEDB8_8320 } else { c >> 1 };
        }
    }
    c ^ 0xFFFF_FFFF
}

#[test]
fn rar5_checksums_are_the_standard_crc32() {
    assert_eq!(reference_crc32(b"123456789"), 0xCBF4_3926);
    let bytes = rar5::write(&[entry("a.txt", b"123456789")], 0);
    let main_header = &bytes[12..16];
    let crc = u32::from_le_bytes([bytes[8], bytes[9], bytes[10], bytes[11]]);
    assert_eq!(crc, reference_crc32(main_header));
    assert!(bytes.windows(4).any(|w| w == 0xCBF4_3926u32.to_le_bytes()));
}
