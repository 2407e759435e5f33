use treezip::entries::PathError;
use treezip::path_map::{check_name, join_under, map_relative, normalize_seps};

fn b(s: &str) -> Vec<u8> {
    s.as_bytes().to_vec()
}

#[test]
fn map_relative_basic() {
    assert_eq!(map_relative(&b("root"), &b("root/a.txt")), Ok(b("a.txt")));
    assert_eq!(map_relative(&b("root"), &b("root")), Ok(b("")));
    assert_eq!(map_relative(&b("root"), &b("root/sub/b")), Ok(b("sub/b")));
    assert_eq!(map_relative(&b(""), &b("a/b")), Ok(b("a/b")));
}

#[test]
fn map_relative_normalizes_backslashes() {
    assert_eq!(map_relative(&b("root"), &b("root\\sub\\c")), Ok(b("sub/c")));
    assert_eq!(map_relative(&b("r\\x"), &b("r/x/y")), Ok(b("y")));
}

#[test]
fn map_relative_rejects_escapes() {
    assert_eq!(map_relative(&b("root"), &b("other/a")), Err(PathError::Escape));
    assert_eq!(map_relative(&b("root"), &b("root/../x")), Err(PathError::Escape));
    assert_eq!(map_relative(&b("root"), &b("root//x")), Err(PathError::Escape));
    assert_eq!(map_relative(&b("root"), &b("root/./x")), Err(PathError::Escape));
    assert_eq!(map_relative(&b("root"), &b("rootling/x")), Err(PathError::Escape));
}

#[test]
fn map_relative_ignores_trailing_separators() {
    assert_eq!(map_relative(&b("root/"), &b("root/a.txt")), Ok(b("a.txt")));
    assert_eq!(map_relative(&b("root//"), &b("root/a.txt")), Ok(b("a.txt")));
    assert_eq!(map_relative(&b("root"), &b("root/x/")), Ok(b("x")));
    assert_eq!(map_relative(&b("root/"), &b("root/")), Ok(b("")));
    assert_eq!(map_relative(&b("root/"), &b("root")), Ok(b("")));
}

#[test]
fn check_name_accepts_valid_utf8() {
    assert!(check_name(&"caf\u{e9}.txt".as_bytes().to_vec()));
    assert!(check_name(&"\u{65e5}\u{672c}/notes.md".as_bytes().to_vec()));
}

#[test]
fn check_name_accepts_safe_names() {
    assert!(check_name(&b("a")));
    assert!(check_name(&b("a/b")));
    assert!(check_name(&b("a.txt")));
    assert!(check_name(&b("sub/dir/file.bin")));
    assert!(check_name(&b("..a/b..")));
    assert!(check_name(&b("a.b./c")));
}

#[test]
fn check_name_rejects_unsafe_names() {
    assert!(!check_name(&b("")));
    assert!(!check_name(&b("/a")));
    assert!(!check_name(&b("a/")));
    assert!(!check_name(&b("a//b")));
    assert!(!check_name(&b(".")));
    assert!(!check_name(&b("..")));
    assert!(!check_name(&b("../x")));
    assert!(!check_name(&b("a/../b")));
    assert!(!check_name(&b("a/..")));
    assert!(!check_name(&b("a/./b")));
    assert!(!check_name(&b("./a")));
    assert!(!check_name(&b("a\\b")));
    assert!(!check_name(&vec![97, 0, 98]));
    assert!(!check_name(&vec![97, 200]));
}

#[test]
fn normalize_and_join() {
    assert_eq!(normalize_seps(&b("a\\b/c\\")), b("a/b/c/"));
    assert_eq!(join_under(&b("dest"), &b("a/b")), b("dest/a/b"));
    assert_eq!(join_under(&b(""), &b("x")), b("/x"));
}
