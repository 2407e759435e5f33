use treezip::archive::{archive_tree, compress_stream};
use treezip::entries::{ArchiveError, CompressionMethod, EntryKind, FsEntry};
use treezip::extract::extract_container;

fn b(s: &str) -> Vec<u8> {
    s.as_bytes().to_vec()
}

fn file(path: &str, data: &[u8], mode: u32) -> FsEntry {
    FsEntry { path: b(path), kind: EntryKind::File, data: data.to_vec(), mode }
}

fn dir(path: &str, mode: u32) -> FsEntry {
    FsEntry { path: b(path), kind: EntryKind::Directory, data: Vec::new(), mode }
}

#[test]
fn concrete_scenario() {
    let entries = vec![
        dir("root", 0o755),
        file("root/a.txt", b"hello", 0o644),
        dir("root/sub", 0o755),
        file("root/sub/b.txt", b"", 0o644),
    ];
    let (bytes, stats) = archive_tree(&b("root"), &entries, CompressionMethod::Zstd).unwrap();
    assert_eq!(stats.entries_written, 3);
    assert_eq!(stats.entries_skipped, 0);
    assert_eq!(stats.bytes_in, 5);
    assert_eq!(stats.bytes_out, bytes.len() as u64);

    let (acts, skipped) = extract_container(&bytes, &b("dest")).unwrap();
    assert_eq!(skipped, 0);
    assert_eq!(acts.len(), 3);

    assert_eq!(acts[0].path, b("dest/a.txt"));
    assert_eq!(acts[0].kind, EntryKind::File);
    assert_eq!(acts[0].data, b"hello".to_vec());
    assert_eq!(acts[0].mode, Some(0o100644));

    assert_eq!(acts[1].path, b("dest/sub"));
    assert_eq!(acts[1].kind, EntryKind::Directory);
    assert_eq!(acts[1].data, Vec::<u8>::new());
    assert_eq!(acts[1].mode, Some(0o40755));

    assert_eq!(acts[2].path, b("dest/sub/b.txt"));
    assert_eq!(acts[2].kind, EntryKind::File);
    assert_eq!(acts[2].data, Vec::<u8>::new());
    assert_eq!(acts[2].mode, Some(0o100644));
}

#[test]
fn empty_tree() {
    let entries = vec![dir("root", 0o755)];
    let (bytes, stats) = archive_tree(&b("root"), &entries, CompressionMethod::Zstd).unwrap();
    assert_eq!(stats.entries_written, 0);
    assert_eq!(stats.entries_skipped, 0);
    let (acts, skipped) = extract_container(&bytes, &b("dest")).unwrap();
    assert_eq!(acts.len(), 0);
    assert_eq!(skipped, 0);
}

fn pseudo_random_bytes(len: usize) -> Vec<u8> {
    let mut state: u64 = 0x9e3779b97f4a7c15;
    let mut out = Vec::with_capacity(len);
    while out.len() < len {
        state = state.wrapping_mul(6364136223846793005).wrapping_add(1442695040888963407);
        let chunk = state.to_le_bytes();
        for &byte in chunk.iter() {
            if out.len() < len {
                out.push(byte);
            }
        }
    }
    out
}

#[test]
fn large_single_file_round_trips() {
    let data = pseudo_random_bytes(16 * 1024 * 1024);
    let entries = vec![file("root/big.bin", &data, 0o600)];
    let (bytes, stats) = archive_tree(&b("root"), &entries, CompressionMethod::Zstd).unwrap();
    assert_eq!(stats.entries_written, 1);
    assert_eq!(stats.bytes_in, data.len() as u64);
    let (acts, skipped) = extract_container(&bytes, &b("out")).unwrap();
    assert_eq!(skipped, 0);
    assert_eq!(acts.len(), 1);
    assert_eq!(acts[0].path, b("out/big.bin"));
    assert_eq!(acts[0].mode, Some(0o100600));
    assert!(acts[0].data == data);
}

#[test]
fn extraction_is_idempotent() {
    let entries = vec![
        file("root/a", b"one", 0o644),
        dir("root/d", 0o755),
        file("root/d/b", b"two", 0o640),
    ];
    let (bytes, _) = archive_tree(&b("root"), &entries, CompressionMethod::Deflated).unwrap();
    let (acts1, sk1) = extract_container(&bytes, &b("dest")).unwrap();
    let (acts2, sk2) = extract_container(&bytes, &b("dest")).unwrap();
    assert_eq!(sk1, sk2);
    assert_eq!(acts1.len(), acts2.len());
    for (a, c) in acts1.iter().zip(acts2.iter()) {
        assert_eq!(a.path, c.path);
        assert_eq!(a.kind, c.kind);
        assert_eq!(a.data, c.data);
        assert_eq!(a.mode, c.mode);
    }
}

#[test]
fn every_method_round_trips() {
    let methods =
        [CompressionMethod::Stored, CompressionMethod::Deflated, CompressionMethod::Zstd];
    for method in methods.iter() {
        let entries = vec![file("r/data.bin", b"abracadabra abracadabra", 0o644)];
        let (bytes, _) = archive_tree(&b("r"), &entries, *method).unwrap();
        let (acts, skipped) = extract_container(&bytes, &b("o")).unwrap();
        assert_eq!(skipped, 0);
        assert_eq!(acts.len(), 1);
        assert_eq!(acts[0].data, b"abracadabra abracadabra".to_vec());
    }
}

#[test]
fn escaping_walker_entries_are_skipped_and_counted() {
    let entries = vec![
        file("root/ok.txt", b"ok", 0o644),
        file("elsewhere/bad.txt", b"bad", 0o644),
        file("root/../up.txt", b"up", 0o644),
    ];
    let (bytes, stats) = archive_tree(&b("root"), &entries, CompressionMethod::Zstd).unwrap();
    assert_eq!(stats.entries_written, 1);
    assert_eq!(stats.entries_skipped, 2);
    let (acts, _) = extract_container(&bytes, &b("dest")).unwrap();
    assert_eq!(acts.len(), 1);
    assert_eq!(acts[0].path, b("dest/ok.txt"));
}

#[test]
fn compress_stream_single_file() {
    let data = b"stream me".to_vec();
    let bytes = compress_stream(&b("file.bin"), &data, 0o600, CompressionMethod::Zstd).unwrap();
    let (acts, skipped) = extract_container(&bytes, &b("dest")).unwrap();
    assert_eq!(skipped, 0);
    assert_eq!(acts.len(), 1);
    assert_eq!(acts[0].path, b("dest/file.bin"));
    assert_eq!(acts[0].kind, EntryKind::File);
    assert_eq!(acts[0].data, data);
    assert_eq!(acts[0].mode, Some(0o100600));
}

#[test]
fn compress_stream_rejects_unsafe_name() {
    let r = compress_stream(&b("../evil"), &b("x"), 0o644, CompressionMethod::Stored);
    assert_eq!(r, Err(ArchiveError::Unsupported));
    let r2 = compress_stream(&b(""), &b("x"), 0o644, CompressionMethod::Stored);
    assert_eq!(r2, Err(ArchiveError::Unsupported));
}

#[test]
fn unicode_names_round_trip() {
    let name = "root/caf\u{e9}/r\u{e9}sum\u{e9}.txt";
    let entries = vec![dir("root/caf\u{e9}", 0o755), file(name, b"bonjour", 0o644)];
    let (bytes, stats) = archive_tree(&b("root"), &entries, CompressionMethod::Deflated).unwrap();
    assert_eq!(stats.entries_written, 2);
    assert_eq!(stats.entries_skipped, 0);
    let (acts, skipped) = extract_container(&bytes, &b("dest")).unwrap();
    assert_eq!(skipped, 0);
    assert_eq!(acts.len(), 2);
    assert_eq!(acts[0].path, b("dest/caf\u{e9}"));
    assert_eq!(acts[1].path, b("dest/caf\u{e9}/r\u{e9}sum\u{e9}.txt"));
    assert_eq!(acts[1].data, b"bonjour".to_vec());
}

#[test]
fn trailing_separator_root_archives_the_tree() {
    let entries = vec![file("root/a.txt", b"hi", 0o644)];
    let (bytes, stats) = archive_tree(&b("root/"), &entries, CompressionMethod::Stored).unwrap();
    assert_eq!(stats.entries_written, 1);
    assert_eq!(stats.entries_skipped, 0);
    let (acts, _) = extract_container(&bytes, &b("dest")).unwrap();
    assert_eq!(acts[0].path, b("dest/a.txt"));
    assert_eq!(acts[0].data, b"hi".to_vec());
}

#[test]
fn duplicate_entry_names_fail_the_whole_archive() {
    let entries = vec![file("r/a", b"one", 0o644), file("r/a", b"two", 0o644)];
    let r = archive_tree(&b("r"), &entries, CompressionMethod::Stored);
    assert!(matches!(r, Err(ArchiveError::Io)));
}

#[test]
fn zero_byte_file_is_a_valid_entry() {
    let entries = vec![file("r/empty", b"", 0o644)];
    let (bytes, stats) = archive_tree(&b("r"), &entries, CompressionMethod::Stored).unwrap();
    assert_eq!(stats.entries_written, 1);
    assert_eq!(stats.bytes_in, 0);
    let (acts, _) = extract_container(&bytes, &b("d")).unwrap();
    assert_eq!(acts.len(), 1);
    assert_eq!(acts[0].data.len(), 0);
}
