use std::io::{Cursor, Write};
use treezip::entries::{ArchiveError, EntryKind};
use treezip::extract::extract_container;

fn b(s: &str) -> Vec<u8> {
    s.as_bytes().to_vec()
}

fn evil_container() -> Vec<u8> {
    let mut zw = zip::ZipWriter::new(Cursor::new(Vec::new()));
    let opts = zip::write::SimpleFileOptions::default();
    zw.start_file("../evil.txt", opts).unwrap();
    zw.write_all(b"evil").unwrap();
    zw.start_file("/abs.txt", opts).unwrap();
    zw.write_all(b"abs").unwrap();
    zw.start_file("a/../climb.txt", opts).unwrap();
    zw.write_all(b"climb").unwrap();
    zw.start_file("ok.txt", opts).unwrap();
    zw.write_all(b"fine").unwrap();
    zw.add_directory("../updir", opts).unwrap();
    zw.finish().unwrap().into_inner()
}

#[test]
fn symlink_records_are_skipped() {
    let mut zw = zip::ZipWriter::new(Cursor::new(Vec::new()));
    let opts = zip::write::SimpleFileOptions::default();
    zw.add_symlink("link", "target", opts).unwrap();
    zw.start_file("plain.txt", opts).unwrap();
    zw.write_all(b"data").unwrap();
    let bytes = zw.finish().unwrap().into_inner();

    let (acts, skipped) = extract_container(&bytes, &b("dest")).unwrap();
    assert_eq!(skipped, 1);
    assert_eq!(acts.len(), 1);
    assert_eq!(acts[0].path, b("dest/plain.txt"));
    assert_eq!(acts[0].data, b"data".to_vec());
}

#[test]
fn traversal_entries_never_leave_the_destination() {
    let bytes = evil_container();
    let (acts, skipped) = extract_container(&bytes, &b("dest")).unwrap();
    assert_eq!(skipped, 4);
    assert_eq!(acts.len(), 1);
    assert_eq!(acts[0].path, b("dest/ok.txt"));
    assert_eq!(acts[0].kind, EntryKind::File);
    assert_eq!(acts[0].data, b"fine".to_vec());
    for act in acts.iter() {
        assert!(act.path.starts_with(b"dest/"));
        assert!(!act.path.windows(2).any(|w| w == b".."));
    }
}

#[test]
fn foreign_container_with_safe_names_extracts() {
    let mut zw = zip::ZipWriter::new(Cursor::new(Vec::new()));
    let opts = zip::write::SimpleFileOptions::default();
    zw.add_directory("sub", opts).unwrap();
    zw.start_file("sub/inner.txt", opts).unwrap();
    zw.write_all(b"payload").unwrap();
    let bytes = zw.finish().unwrap().into_inner();

    let (acts, skipped) = extract_container(&bytes, &b("out")).unwrap();
    assert_eq!(skipped, 0);
    assert_eq!(acts.len(), 2);
    assert_eq!(acts[0].path, b("out/sub"));
    assert_eq!(acts[0].kind, EntryKind::Directory);
    assert_eq!(acts[1].path, b("out/sub/inner.txt"));
    assert_eq!(acts[1].data, b"payload".to_vec());
}

#[test]
fn garbage_bytes_are_reported_corrupt() {
    let garbage = vec![0u8; 64];
    assert!(matches!(extract_container(&garbage, &b("dest")), Err(ArchiveError::Corrupt)));
    let truncated = b("PK\x03\x04not a zip at all");
    assert!(matches!(extract_container(&truncated, &b("dest")), Err(ArchiveError::Corrupt)));
}
