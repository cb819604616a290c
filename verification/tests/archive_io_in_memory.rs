use satsuma_core::convert::archive::Entry;
use satsuma_core::convert::archive_read::{read_gzip_entries, read_tar_entries, read_zip_entries};
use satsuma_core::convert::archive_write::{tar_bytes, tar_gz_bytes, zip_bytes};
use satsuma_core::convert::document::extract_pdf_text;
use satsuma_core::convert::error::ConvertError;
use std::io::Write;

fn file(path: &str, data: &[u8]) -> Entry {
    Entry { path: path.to_string(), is_dir: false, data: data.to_vec() }
}

fn dir(path: &str) -> Entry {
    Entry { path: path.to_string(), is_dir: true, data: Vec::new() }
}

fn summary(entries: &[Entry]) -> Vec<(String, bool, Vec<u8>)> {
    entries.iter().map(|e| (e.path.clone(), e.is_dir, e.data.clone())).collect()
}

fn sample() -> Vec<Entry> {
    vec![dir("docs"), file("docs/a.txt", b"alpha"), file("b.bin", &[0, 1, 2, 255])]
}

#[test]
fn zip_written_then_read_gives_the_entries_back() {
    let bytes = zip_bytes(&sample()).unwrap();
    let read = read_zip_entries(&bytes).unwrap();
    assert_eq!(summary(&read), summary(&sample()));
}

#[test]
fn tar_written_then_read_gives_the_entries_back() {
    let bytes = tar_bytes(&sample(), 1_700_000_000).unwrap();
    let read = read_tar_entries(&bytes).unwrap();
    assert_eq!(summary(&read), summary(&sample()));
    let mut archive = tar::Archive::new(std::io::Cursor::new(bytes));
    let modes: Vec<(String, u32, u64)> = archive
        .entries()
        .unwrap()
        .map(|e| {
            let e = e.unwrap();
            (e.path().unwrap().to_string_lossy().into_owned(), e.header().mode().unwrap(), e.header().mtime().unwrap())
        })
        .collect();
    assert_eq!(modes[0], ("docs/".to_string(), 0o755, 1_700_000_000));
    assert_eq!(modes[1], ("docs/a.txt".to_string(), 0o644, 1_700_000_000));
}

#[test]
fn a_gzipped_tarball_reads_as_its_tar_entries() {
    let bytes = tar_gz_bytes(&sample(), 0).unwrap();
    let read = read_gzip_entries(&bytes, "/d/pack.tar.gz").unwrap();
    assert_eq!(summary(&read), summary(&sample()));
}

#[test]
fn a_bare_gzip_stream_is_one_file_named_by_its_header_or_the_source() {
    let mut named = flate2::GzBuilder::new().filename("notes.txt").write(Vec::new(), flate2::Compression::default());
    named.write_all(b"hello").unwrap();
    let read = read_gzip_entries(&named.finish().unwrap(), "/d/x.gz").unwrap();
    assert_eq!(summary(&read), vec![("notes.txt".to_string(), false, b"hello".to_vec())]);
    let mut plain = flate2::write::GzEncoder::new(Vec::new(), flate2::Compression::default());
    plain.write_all(b"hi").unwrap();
    let read = read_gzip_entries(&plain.finish().unwrap(), "/d/report.gz").unwrap();
    assert_eq!(summary(&read), vec![("report".to_string(), false, b"hi".to_vec())]);
}

#[test]
fn archives_with_clashing_or_unsafe_names_or_damage_are_refused() {
    let clash = zip_bytes(&[file("A.txt", b"1"), file("a.txt", b"2")]).unwrap();
    match read_zip_entries(&clash) {
        Err(ConvertError::Other(m)) => {
            assert_eq!(m, "refusing archive with duplicate entry path \"a.txt\" (two entries sanitize to the same name)")
        }
        _ => panic!("expected the duplicate path to be refused"),
    }
    let traversal_clash = zip_bytes(&[file("a/../b.txt", b"1"), file("a/b.txt", b"2")]).unwrap();
    match read_zip_entries(&traversal_clash) {
        Err(ConvertError::Other(m)) => {
            assert_eq!(m, "refusing archive with duplicate entry path \"a/b.txt\" (two entries sanitize to the same name)")
        }
        _ => panic!("expected the duplicate path to be refused"),
    }
    let folded = tar_bytes(&[file("docs/Readme.md", b"1"), file("x.txt", b"2"), file("docs/readme.md", b"3")], 0).unwrap();
    match read_tar_entries(&folded) {
        Err(ConvertError::Other(m)) => {
            assert_eq!(m, "refusing archive with duplicate entry path \"docs/readme.md\" (two entries sanitize to the same name)")
        }
        _ => panic!("expected the duplicate path to be refused"),
    }
    let drive = tar_bytes(&[file("C:/evil.txt", b"x")], 0).unwrap();
    match read_tar_entries(&drive) {
        Err(ConvertError::Other(m)) => assert_eq!(m, "refusing archive entry with a drive-letter path: \"C:/evil.txt\""),
        _ => panic!("expected the drive-letter path to be refused"),
    }
    assert!(matches!(read_zip_entries(b"not a zip"), Err(ConvertError::Decode(_))));
    assert!(matches!(read_gzip_entries(b"not gzip", "/d/x.gz"), Err(ConvertError::Decode(_))));
    let traversal = zip_bytes(&[file("../../etc/passwd", b"x")]).unwrap();
    assert_eq!(summary(&read_zip_entries(&traversal).unwrap()), vec![("etc/passwd".to_string(), false, b"x".to_vec())]);
}

#[test]
fn pdf_read_failures_become_decode_errors() {
    match extract_pdf_text(Err("Invalid file header".to_string())) {
        Err(ConvertError::Decode(d)) => assert_eq!(d, "could not read PDF: Invalid file header"),
        _ => panic!("expected a decode error"),
    }
    assert_eq!(extract_pdf_text(Ok("page text".to_string())).ok(), Some("page text".to_string()));
}

#[test]
fn zip_with_more_entries_than_the_count_cap_is_rejected() {
    let entries: Vec<Entry> = (0..100_001).map(|i| file(&format!("f{i}.txt"), b"x")).collect();
    let bytes = zip_bytes(&entries).unwrap();
    match read_zip_entries(&bytes) {
        Err(ConvertError::Other(m)) => assert_eq!(m, "archive contains more than 100000 entries"),
        _ => panic!("an archive over the entry count cap must be rejected"),
    }
}
