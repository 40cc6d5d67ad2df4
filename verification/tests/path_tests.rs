use aurora_kernel::vfs::path::Path;

#[test]
fn test_parent() {
    assert_eq!(Path::parent("/a/b/c"), "/a/b");
    assert_eq!(Path::parent("/a/b/"), "/a");
    assert_eq!(Path::parent("/"), "/");
    assert_eq!(Path::parent("a/b/c"), "a/b");
}

#[test]
fn test_basename() {
    assert_eq!(Path::basename("/a/b/c"), "c");
    assert_eq!(Path::basename("/a/b/"), "b");
    assert_eq!(Path::basename("/"), "");
    assert_eq!(Path::basename("file.txt"), "file.txt");
}

#[test]
fn test_join() {
    assert_eq!(Path::join("/a/b", "c"), "/a/b/c");
    assert_eq!(Path::join("/a/b", "/c"), "/c");
    assert_eq!(Path::join("", "c"), "c");
}

#[test]
fn test_normalize() {
    assert_eq!(Path::normalize("/a/b/../c"), "/a/c");
    assert_eq!(Path::normalize("/a/./b"), "/a/b");
    assert_eq!(Path::normalize("/a/b/../../c"), "/c");
}

#[test]
fn parent_edge_cases() {
    assert_eq!(Path::parent(""), "/");
    assert_eq!(Path::parent("file"), ".");
    assert_eq!(Path::parent("/file"), "/");
    assert_eq!(Path::parent("//"), "/");
    assert_eq!(Path::parent("///"), "/");
    assert_eq!(Path::parent("/a//"), "/");
}

#[test]
fn basename_edge_cases() {
    assert_eq!(Path::basename(""), "");
    assert_eq!(Path::basename("a//"), "a");
    assert_eq!(Path::basename("/é/ü"), "ü");
}

#[test]
fn join_trims_separators() {
    assert_eq!(Path::join("/a/", "b"), "/a/b");
    assert_eq!(Path::join("a///", "b"), "a/b");
    assert_eq!(Path::join("/", "b"), "/b");
}

#[test]
fn normalize_edge_cases() {
    assert_eq!(Path::normalize(""), "/");
    assert_eq!(Path::normalize("/.."), "/");
    assert_eq!(Path::normalize("a//b/./"), "/a/b");
    assert_eq!(Path::normalize("../../x"), "/x");
    assert_eq!(Path::normalize("/a/b/c/.."), "/a/b");
}

#[test]
fn normalize_is_idempotent_on_example() {
    let once = Path::normalize("/x/./y/../z//w/");
    assert_eq!(once, "/x/z/w");
    assert_eq!(Path::normalize(&once), once);
}

#[test]
fn is_absolute_examples() {
    assert!(Path::is_absolute("/a"));
    assert!(!Path::is_absolute("a/b"));
    assert!(!Path::is_absolute(""));
}

#[test]
fn extension_examples() {
    assert_eq!(Path::extension("/dir/file.tar.gz"), Some("gz"));
    assert_eq!(Path::extension("/dir/.bashrc"), None);
    assert_eq!(Path::extension("noext"), None);
    assert_eq!(Path::extension("a.b/c"), None);
    assert_eq!(Path::extension("file."), Some(""));
}

#[test]
fn stem_examples() {
    assert_eq!(Path::stem("/dir/file.tar.gz"), "file.tar");
    assert_eq!(Path::stem("/dir/.bashrc"), ".bashrc");
    assert_eq!(Path::stem("noext"), "noext");
}

#[test]
fn join_parent_and_basename_gives_path_back() {
    for p in ["/a/b/c", "/a/b/c/", "/top", "rel/dir/file", "/x/y//"] {
        let trimmed = p.trim_end_matches('/');
        assert_eq!(Path::join(Path::parent(p), Path::basename(p)), trimmed);
    }
}

#[test]
fn stem_dot_extension_is_basename() {
    for p in ["/dir/file.tar.gz", "/dir/.bashrc", "noext", "file.", "a.b/c"] {
        match Path::extension(p) {
            Some(e) => assert_eq!(format!("{}.{}", Path::stem(p), e), Path::basename(p)),
            None => assert_eq!(Path::stem(p), Path::basename(p)),
        }
    }
}
