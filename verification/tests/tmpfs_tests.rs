use aurora_kernel::fs::tmpfs::{NodeKind, TmpFs};
use aurora_kernel::vfs::file::FileType;
use aurora_kernel::vfs::VfsError;

#[test]
fn root_opens_as_directory() {
    let fs = TmpFs::new();
    let root = fs.open("/").unwrap();
    assert_eq!(root.kind, NodeKind::Directory);
    assert_eq!(root.name(), "/");
    assert!(fs.is_dir(&root));
    assert_eq!(fs.metadata(&root).unwrap().inode, 1);
}

#[test]
fn mkdir_open_child_and_paths() {
    let mut fs = TmpFs::new();
    let root = fs.open("/").unwrap();
    let mut next: u64 = 2;
    assert_eq!(fs.mkdir(&root, "etc", &mut next), Ok(()));
    let etc = fs.open("/etc").unwrap();
    assert_eq!(etc.name(), "etc");
    assert_eq!(fs.metadata(&etc).unwrap().file_type, FileType::Directory);
    assert_eq!(fs.mkdir(&etc, "conf", &mut next), Ok(()));
    let conf = fs.open("etc/conf/").unwrap();
    assert_eq!(conf.name(), "conf");
    assert_eq!(fs.metadata(&conf).unwrap().inode, 3);
    assert_eq!(next, 4);
    assert!(matches!(fs.open("/etc/none"), Err(VfsError::NotFound)));
    assert!(matches!(fs.open("/none/conf"), Err(VfsError::NotFound)));
    let child = fs.open_child(&root, "etc").unwrap();
    assert_eq!(child.name(), "etc");
    assert!(matches!(fs.open_child(&root, "x"), Err(VfsError::NotFound)));
}

#[test]
fn readdir_lists_sorted_names() {
    let mut fs = TmpFs::new();
    let root = fs.open("/").unwrap();
    let mut next: u64 = 2;
    assert_eq!(fs.mkdir(&root, "zeta", &mut next), Ok(()));
    assert_eq!(fs.mkdir(&root, "alpha", &mut next), Ok(()));
    assert_eq!(fs.mkdir(&root, "mid", &mut next), Ok(()));
    assert_eq!(
        fs.readdir(&root).unwrap(),
        vec![".".to_string(), "..".to_string(), "alpha".to_string(), "mid".to_string(), "zeta".to_string()]
    );
}

#[test]
fn unlink_removes_entry() {
    let mut fs = TmpFs::new();
    let root = fs.open("/").unwrap();
    let mut next: u64 = 2;
    assert_eq!(fs.mkdir(&root, "a", &mut next), Ok(()));
    assert_eq!(fs.unlink(&root, "a"), Ok(()));
    assert_eq!(fs.unlink(&root, "a"), Err(VfsError::NotFound));
    assert_eq!(fs.readdir(&root).unwrap(), vec![".".to_string(), "..".to_string()]);
}

#[test]
fn directory_io_refused() {
    let mut fs = TmpFs::new();
    let root = fs.open("/").unwrap();
    let mut buf = [0u8; 8];
    assert_eq!(fs.read_at(&root, &mut buf, 0), Err(VfsError::IsADirectory));
    assert_eq!(fs.write_at(&root, &[1, 2], 0), Err(VfsError::IsADirectory));
}

#[test]
fn statfs_and_type() {
    let fs = TmpFs::new();
    let st = fs.statfs().unwrap();
    assert_eq!(st.block_size, 4096);
    assert_eq!(st.total_blocks, 1024 * 1024);
    assert_eq!(st.free_blocks, 1024 * 1024);
    assert_eq!(st.total_inodes, 1_000_000);
    assert_eq!(st.free_inodes, 1_000_000);
    assert_eq!(st.fs_type, "tmpfs");
    assert_eq!(fs.fs_type(), "tmpfs");
    assert_eq!(fs.sync(), Ok(()));
}

#[test]
fn set_metadata_unsupported() {
    let mut fs = TmpFs::new();
    let root = fs.open("/").unwrap();
    let meta = fs.metadata(&root).unwrap();
    assert_eq!(fs.set_metadata(&root, &meta), Err(VfsError::IoError));
    assert_eq!(fs.flush(&root), Ok(()));
}

#[test]
fn mkdir_failure_keeps_counter() {
    let mut fs = TmpFs::new();
    let root = fs.open("/").unwrap();
    let mut next: u64 = 7;
    assert_eq!(fs.mkdir(&root, "a", &mut next), Ok(()));
    assert_eq!(next, 8);
    assert_eq!(fs.metadata(&fs.open("/a").unwrap()).unwrap().inode, 7);
    assert_eq!(fs.mkdir(&root, "a", &mut next), Err(VfsError::AlreadyExists));
    assert_eq!(next, 8);
}
