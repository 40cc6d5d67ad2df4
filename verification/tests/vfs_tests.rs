use aurora_kernel::fs::tmpfs::TmpFs;
use aurora_kernel::vfs::file::FileType;
use aurora_kernel::vfs::{OpenFlags, VfsError, VirtualFilesystem};

fn root_vfs() -> VirtualFilesystem {
    let mut vfs = VirtualFilesystem::new();
    assert_eq!(vfs.mount("/", TmpFs::new()), Ok(()));
    vfs
}

#[test]
fn empty_vfs_finds_nothing() {
    let vfs = VirtualFilesystem::new();
    assert!(matches!(vfs.stat("/"), Err(VfsError::NotFound)));
}

#[test]
fn root_lists_dot_entries() {
    let vfs = root_vfs();
    assert_eq!(vfs.readdir("/").unwrap(), vec![".".to_string(), "..".to_string()]);
}

#[test]
fn mkdir_then_readdir_sorted() {
    let mut vfs = root_vfs();
    assert_eq!(vfs.mkdir("/b"), Ok(()));
    assert_eq!(vfs.mkdir("/a"), Ok(()));
    assert_eq!(
        vfs.readdir("/").unwrap(),
        vec![".".to_string(), "..".to_string(), "a".to_string(), "b".to_string()]
    );
}

#[test]
fn mkdir_twice_already_exists() {
    let mut vfs = root_vfs();
    assert_eq!(vfs.mkdir("/a"), Ok(()));
    assert_eq!(vfs.mkdir("/a"), Err(VfsError::AlreadyExists));
}

#[test]
fn mkdir_in_missing_parent_not_found() {
    let mut vfs = root_vfs();
    assert_eq!(vfs.mkdir("/x/y"), Err(VfsError::NotFound));
}

#[test]
fn nested_directories() {
    let mut vfs = root_vfs();
    assert_eq!(vfs.mkdir("/a"), Ok(()));
    assert_eq!(vfs.mkdir("/a/c"), Ok(()));
    assert_eq!(vfs.readdir("/a").unwrap(), vec![".".to_string(), "..".to_string(), "c".to_string()]);
}

#[test]
fn stat_new_directory() {
    let mut vfs = root_vfs();
    assert_eq!(vfs.mkdir("/a"), Ok(()));
    let meta = vfs.stat("/a").unwrap();
    assert_eq!(meta.file_type, FileType::Directory);
    assert_eq!(meta.inode, 2);
    assert_eq!(meta.link_count, 2);
    assert_eq!(meta.size, 0);
    let root = vfs.stat("/").unwrap();
    assert_eq!(root.inode, 1);
}

#[test]
fn stat_missing_not_found() {
    let vfs = root_vfs();
    assert!(matches!(vfs.stat("/nope"), Err(VfsError::NotFound)));
}

#[test]
fn unlink_then_gone() {
    let mut vfs = root_vfs();
    assert_eq!(vfs.mkdir("/a"), Ok(()));
    assert_eq!(vfs.unlink("/a"), Ok(()));
    assert!(matches!(vfs.stat("/a"), Err(VfsError::NotFound)));
    assert_eq!(vfs.unlink("/a"), Err(VfsError::NotFound));
}

#[test]
fn open_hands_out_increasing_descriptors() {
    let mut vfs = root_vfs();
    assert_eq!(vfs.open("/", OpenFlags::read()), Ok(0));
    assert_eq!(vfs.open("/", OpenFlags::read()), Ok(1));
    assert_eq!(vfs.close(0), Ok(()));
    assert_eq!(vfs.open("/", OpenFlags::read()), Ok(2));
}

#[test]
fn open_missing_not_found() {
    let mut vfs = root_vfs();
    assert_eq!(vfs.open("/missing", OpenFlags::read()), Err(VfsError::NotFound));
}

#[test]
fn open_for_writing_writable_directory() {
    let mut vfs = root_vfs();
    assert_eq!(vfs.open("/", OpenFlags::write()), Ok(0));
}

#[test]
fn close_twice_invalid() {
    let mut vfs = root_vfs();
    let fd = vfs.open("/", OpenFlags::read()).unwrap();
    assert_eq!(vfs.close(fd), Ok(()));
    assert_eq!(vfs.close(fd), Err(VfsError::InvalidSeek));
}

#[test]
fn read_write_directory_refused() {
    let mut vfs = root_vfs();
    let fd = vfs.open("/", OpenFlags::read()).unwrap();
    let mut buf = [7u8; 4];
    assert_eq!(vfs.read(fd, &mut buf), Err(VfsError::IsADirectory));
    assert_eq!(buf, [7u8; 4]);
    assert_eq!(vfs.write(fd, &[1, 2, 3]), Err(VfsError::IsADirectory));
}

#[test]
fn read_write_unknown_descriptor() {
    let mut vfs = root_vfs();
    let mut buf = [0u8; 4];
    assert_eq!(vfs.read(9, &mut buf), Err(VfsError::InvalidSeek));
    assert_eq!(vfs.write(9, &[1]), Err(VfsError::InvalidSeek));
}

#[test]
fn longest_mount_prefix_wins() {
    let mut vfs = root_vfs();
    let mut other = TmpFs::new();
    let root = other.open("/").unwrap();
    let mut next: u64 = 2;
    assert_eq!(other.mkdir(&root, "inner", &mut next), Ok(()));
    assert_eq!(vfs.mount("/mnt", other), Ok(()));
    assert_eq!(vfs.readdir("/mnt").unwrap(), vec![".".to_string(), "..".to_string(), "inner".to_string()]);
    assert!(vfs.stat("/mnt/inner").is_ok());
    assert!(matches!(vfs.stat("/inner"), Err(VfsError::NotFound)));
}

#[test]
fn open_flags_bits() {
    let f = OpenFlags::read().union(OpenFlags::write());
    assert_eq!(f.bits(), 3);
    assert!(f.contains(OpenFlags::read()));
    assert!(!f.contains(OpenFlags::append()));
    assert_eq!(OpenFlags::all().bits(), 0b0111_0111);
    assert!(OpenFlags::from_bits(8).is_none());
    assert_eq!(OpenFlags::from_bits_truncate(0xff).bits(), 0b0111_0111);
    let mut g = OpenFlags::empty();
    g.insert(OpenFlags::create());
    g.insert(OpenFlags::truncate());
    g.remove(OpenFlags::create());
    assert_eq!(g.bits(), 32);
    assert!(g.intersects(OpenFlags::truncate()));
    assert!(!g.intersects(OpenFlags::exclusive()));
}

#[test]
fn inode_numbers_shared_across_mounts() {
    let mut vfs = root_vfs();
    assert_eq!(vfs.mount("/mnt", TmpFs::new()), Ok(()));
    assert_eq!(vfs.mkdir("/a"), Ok(()));
    assert_eq!(vfs.mkdir("/mnt/b"), Ok(()));
    assert_eq!(vfs.mkdir("/a/c"), Ok(()));
    assert_eq!(vfs.stat("/a").unwrap().inode, 2);
    assert_eq!(vfs.stat("/mnt/b").unwrap().inode, 3);
    assert_eq!(vfs.stat("/a/c").unwrap().inode, 4);
}
