use agentfs_sandbox::fsview::{
    check_listable, check_readable, file_kind, list_entry, path_components, FileKind, Listed, NotReadable,
    ROOT_INO, S_IFDIR, S_IFMT, S_IFREG,
};

#[test]
fn mode_constants() {
    assert_eq!(ROOT_INO, 1);
    assert_eq!(S_IFMT, 61440);
    assert_eq!(S_IFDIR, 16384);
    assert_eq!(S_IFREG, 32768);
}

#[test]
fn kinds_of_files() {
    assert_eq!(file_kind(0o040755), FileKind::Directory);
    assert_eq!(file_kind(0o040000), FileKind::Directory);
    assert_eq!(file_kind(0o100644), FileKind::Regular);
    assert_eq!(file_kind(0o100000), FileKind::Regular);
    // A symbolic link, a socket, a character device, and no kind at all.
    assert_eq!(file_kind(0o120777), FileKind::Other);
    assert_eq!(file_kind(0o140000), FileKind::Other);
    assert_eq!(file_kind(0o020666), FileKind::Other);
    assert_eq!(file_kind(0), FileKind::Other);
    assert_eq!(file_kind(0o644), FileKind::Other);
    // Bits above the kind bits do not count.
    assert_eq!(file_kind(0o1040755), FileKind::Directory);
}

#[test]
fn only_regular_files_are_readable() {
    assert_eq!(check_readable(0o100644), Ok(()));
    assert_eq!(check_readable(0o040755), Err(NotReadable::IsDirectory));
    assert_eq!(check_readable(0o120777), Err(NotReadable::NotRegular));
    assert_eq!(check_readable(0), Err(NotReadable::NotRegular));
}

fn strings(items: &[&str]) -> Vec<String> {
    items.iter().map(|s| s.to_string()).collect()
}

#[test]
fn components_of_paths() {
    assert_eq!(path_components("/test_dir/test.txt"), strings(&["test_dir", "test.txt"]));
    assert_eq!(path_components("a/b/c"), strings(&["a", "b", "c"]));
    assert_eq!(path_components("/a/b//c/"), strings(&["a", "b", "c"]));
    assert_eq!(path_components("///a"), strings(&["a"]));
    assert_eq!(path_components("a"), strings(&["a"]));
    assert_eq!(path_components("a/"), strings(&["a"]));
    assert_eq!(path_components(""), strings(&[]));
    assert_eq!(path_components("/"), strings(&[]));
    assert_eq!(path_components("////"), strings(&[]));
    assert_eq!(path_components("/./../x"), strings(&[".", "..", "x"]));
    assert_eq!(path_components("/höhe/数字/x y"), strings(&["höhe", "数字", "x y"]));
}

#[test]
fn listing_lines() {
    assert_eq!(
        list_entry("", "etc", 0o040755),
        Listed { type_char: 'd', path: "etc".to_string(), descend: true }
    );
    assert_eq!(
        list_entry("etc", "hosts", 0o100644),
        Listed { type_char: 'f', path: "etc/hosts".to_string(), descend: false }
    );
    assert_eq!(
        list_entry("a/b", "link", 0o120777),
        Listed { type_char: 'f', path: "a/b/link".to_string(), descend: false }
    );
    assert_eq!(
        list_entry("a/b", "", 0o040000),
        Listed { type_char: 'd', path: "a/b/".to_string(), descend: true }
    );
}

#[test]
fn only_the_root_is_listable() {
    assert!(check_listable("/"));
    assert!(!check_listable(""));
    assert!(!check_listable("//"));
    assert!(!check_listable("/a"));
    assert!(!check_listable("a"));
    assert!(!check_listable("."));
    assert!(!check_listable("数"));
}
