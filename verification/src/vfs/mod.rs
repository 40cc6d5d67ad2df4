//! Virtual filesystem layer.

use vstd::prelude::*;

pub mod file;
pub mod mount;
pub mod path;

use std::collections::BTreeMap;
use vstd::string::*;
use crate::fs::tmpfs::{TmpFs, TmpNode, open_spec, kind_of, read_at_post, write_at_post, mkdir_post, unlink_post, readdir_post};
use crate::text::{is_prefix, utf8_len, starts_with, str_eq, utf8_byte_len};
use self::mount::MountPoint;
use self::file::{FileMetadata, FileType};
use self::path::{Path, spec_parent, spec_basename};

verus! {

broadcast use {vstd::laws_cmp::group_laws_cmp, vstd::std_specs::btree::group_btree_axioms};

/// VFS error types.
#[derive(Debug, Clone, Copy, PartialEq, Eq, Structural)]
pub enum VfsError {
    NotFound,
    PermissionDenied,
    AlreadyExists,
    InvalidPath,
    NotADirectory,
    NotAFile,
    IsADirectory,
    DirectoryNotEmpty,
    NoSpaceLeft,
    TooManyOpenFiles,
    InvalidSeek,
    IoError,
}

/// Result of a VFS operation.
pub type VfsResult<T> = Result<T, VfsError>;

/// Inode number type.
pub type InodeId = u64;

/// File descriptor type.
pub type Fd = usize;

/// Bits of the declared open flags.
pub const OPEN_FLAGS_ALL: u32 = 0b0111_0111;

/// File open flags.
#[derive(Debug, Clone, Copy, PartialEq, Eq, Structural)]
pub struct OpenFlags {
    bits: u32,
}

impl OpenFlags {
    /// The raw flag bits.
    pub closed spec fn spec_bits(&self) -> u32 {
        self.bits
    }

    /// Flags of the given bits.
    fn of(bits: u32) -> (r: Self)
        ensures
            r.spec_bits() == bits,
    {
        OpenFlags { bits }
    }

    /// Open for reading.
    pub fn read() -> (r: Self)
        ensures
            r.spec_bits() == 1,
    {
        Self::of(1)
    }

    /// Open for writing.
    pub fn write() -> (r: Self)
        ensures
            r.spec_bits() == 2,
    {
        Self::of(2)
    }

    /// Append to the end.
    pub fn append() -> (r: Self)
        ensures
            r.spec_bits() == 4,
    {
        Self::of(4)
    }

    /// Create the file if it does not exist.
    pub fn create() -> (r: Self)
        ensures
            r.spec_bits() == 16,
    {
        Self::of(16)
    }

    /// Truncate the file.
    pub fn truncate() -> (r: Self)
        ensures
            r.spec_bits() == 32,
    {
        Self::of(32)
    }

    /// Fail if the file exists.
    pub fn exclusive() -> (r: Self)
        ensures
            r.spec_bits() == 64,
    {
        Self::of(64)
    }

    /// No flag set.
    pub fn empty() -> (r: Self)
        ensures
            r.spec_bits() == 0,
    {
        Self::of(0)
    }

    /// Every declared flag set.
    pub fn all() -> (r: Self)
        ensures
            r.spec_bits() == OPEN_FLAGS_ALL,
    {
        Self::of(OPEN_FLAGS_ALL)
    }

    /// The raw flag bits.
    pub fn bits(&self) -> (r: u32)
        ensures
            r == self.spec_bits(),
    {
        self.bits
    }

    /// The flags of `bits`, if every bit is a declared flag.
    pub fn from_bits(bits: u32) -> (r: Option<Self>)
        ensures
            r is Some == (bits & !OPEN_FLAGS_ALL == 0),
            r matches Some(f) ==> f.spec_bits() == bits,
    {
        if bits & !OPEN_FLAGS_ALL == 0 {
            Some(Self::of(bits))
        } else {
            None
        }
    }

    /// The flags of `bits`, dropping undeclared bits.
    pub fn from_bits_truncate(bits: u32) -> (r: Self)
        ensures
            r.spec_bits() == bits & OPEN_FLAGS_ALL,
    {
        Self::of(bits & OPEN_FLAGS_ALL)
    }

    /// Whether every flag of `other` is set.
    pub fn contains(&self, other: Self) -> (r: bool)
        ensures
            r == (self.spec_bits() & other.spec_bits() == other.spec_bits()),
    {
        self.bits & other.bits == other.bits
    }

    /// Whether some flag of `other` is set.
    pub fn intersects(&self, other: Self) -> (r: bool)
        ensures
            r == (self.spec_bits() & other.spec_bits() != 0),
    {
        self.bits & other.bits != 0
    }

    /// Set the flags of `other`.
    pub fn insert(&mut self, other: Self)
        ensures
            final(self).spec_bits() == old(self).spec_bits() | other.spec_bits(),
    {
        self.bits = self.bits | other.bits;
    }

    /// Clear the flags of `other`.
    pub fn remove(&mut self, other: Self)
        ensures
            final(self).spec_bits() == old(self).spec_bits() & !other.spec_bits(),
    {
        self.bits = self.bits & !other.bits;
    }

    /// The flags of both.
    pub fn union(self, other: Self) -> (r: Self)
        ensures
            r.spec_bits() == self.spec_bits() | other.spec_bits(),
    {
        Self::of(self.bits | other.bits)
    }
}

/// Open file description.
pub struct OpenFile {
    /// The mount the file was opened on.
    pub mount: usize,
    /// The open node.
    pub file: TmpNode,
    /// Current position.
    pub position: u64,
    /// Flags it was opened with.
    pub flags: OpenFlags,
}

impl OpenFile {
    /// An open file at position 0.
    pub fn new(mount: usize, file: TmpNode, flags: OpenFlags) -> (r: Self)
        ensures
            r.mount == mount,
            r.file == file,
            r.position == 0,
            r.flags == flags,
    {
        OpenFile { mount, file, position: 0, flags }
    }
}

/// The mount whose path is the longest prefix of `path` (by byte length;
/// the first such mount among equals) among `paths`.
pub open spec fn best_mount(paths: Seq<Seq<char>>, path: Seq<char>) -> Option<int>
    decreases paths.len(),
{
    if paths.len() == 0 {
        None
    } else {
        let prev = best_mount(paths.drop_last(), path);
        let k = paths.len() - 1;
        let best_len = match prev {
            Some(j) => utf8_len(paths[j]),
            None => 0,
        };
        if is_prefix(paths[k], path) && utf8_len(paths[k]) > best_len {
            Some(k)
        } else {
            prev
        }
    }
}

proof fn lemma_best_mount(paths: Seq<Seq<char>>, path: Seq<char>)
    ensures
        match best_mount(paths, path) {
            Some(j) => 0 <= j < paths.len() && is_prefix(paths[j], path),
            None => true,
        },
    decreases paths.len(),
{
    if paths.len() > 0 {
        lemma_best_mount(paths.drop_last(), path);
        match best_mount(paths.drop_last(), path) {
            Some(j) => {
                assert(paths.drop_last()[j] == paths[j]);
            },
            None => {},
        }
    }
}

/// Inside a mount other than the root, a path is looked up by what follows
/// the mount path: the mount path followed by that rest is the path again.
/// Inside a one-byte mount path (the root) the whole path is looked up.
pub proof fn lemma_relative_path_rejoins(mp: Seq<char>, path: Seq<char>)
    requires
        is_prefix(mp, path),
    ensures
        utf8_len(mp) > 1 ==> mp + relative_path(mp, path) == path,
        utf8_len(mp) <= 1 ==> relative_path(mp, path) == path,
{
    if utf8_len(mp) > 1 {
        assert(mp + path.subrange(mp.len() as int, path.len() as int) =~= path);
    }
}

/// The mount chosen for a path is the longest match: its path is a prefix
/// of the path, and no mount whose path is a prefix is longer (in bytes);
/// among equally long ones the first is taken. No mount is chosen only when
/// no mount path of at least one byte is a prefix.
pub proof fn lemma_best_mount_longest(paths: Seq<Seq<char>>, path: Seq<char>)
    ensures
        match best_mount(paths, path) {
            Some(j) => {
                &&& 0 <= j < paths.len()
                &&& is_prefix(paths[j], path)
                &&& utf8_len(paths[j]) > 0
                &&& forall|k: int|
                    0 <= k < paths.len() && is_prefix(#[trigger] paths[k], path) ==> utf8_len(paths[k])
                        <= utf8_len(paths[j]) && (utf8_len(paths[k]) == utf8_len(paths[j]) ==> j <= k)
            },
            None => forall|k: int|
                0 <= k < paths.len() && is_prefix(#[trigger] paths[k], path) ==> utf8_len(paths[k]) == 0,
        },
    decreases paths.len(),
{
    if paths.len() > 0 {
        let d = paths.drop_last();
        lemma_best_mount_longest(d, path);
        let last = paths.len() - 1;
        assert forall|k: int| 0 <= k < d.len() implies #[trigger] paths[k] == d[k] by {}
        match best_mount(d, path) {
            Some(j) => {
                assert(paths[j] == d[j]);
                assert forall|k: int|
                    0 <= k < last && is_prefix(#[trigger] paths[k], path) implies utf8_len(paths[k])
                        <= utf8_len(paths[j]) && (utf8_len(paths[k]) == utf8_len(paths[j]) ==> j <= k) by {
                    assert(paths[k] == d[k]);
                }
            },
            None => {
                assert forall|k: int|
                    0 <= k < last && is_prefix(#[trigger] paths[k], path) implies utf8_len(paths[k]) == 0 by {
                    assert(paths[k] == d[k]);
                }
            },
        }
    }
}

/// The path inside mount `mp` that `path` names: the rest after the mount
/// path, unless the mount path is a single byte (the root).
pub open spec fn relative_path(mp: Seq<char>, path: Seq<char>) -> Seq<char> {
    if utf8_len(mp) > 1 {
        path.subrange(mp.len() as int, path.len() as int)
    } else {
        path
    }
}

/// Main VFS structure.
pub struct VirtualFilesystem {
    /// Root mount point.
    root: Option<usize>,
    /// All mount points.
    mounts: Vec<MountPoint>,
    /// File descriptor table.
    fd_table: BTreeMap<usize, OpenFile>,
    /// Next file descriptor.
    next_fd: usize,
    /// Inode number of the next directory created, on any mount.
    next_inode: u64,
}

impl VirtualFilesystem {
    /// The mount points.
    pub closed spec fn mount_seq(&self) -> Seq<MountPoint> {
        self.mounts@
    }

    /// The paths of the mount points.
    pub open spec fn mount_paths(&self) -> Seq<Seq<char>> {
        self.mount_seq().map_values(|m: MountPoint| m.path@)
    }

    /// The open files by descriptor.
    pub closed spec fn fds(&self) -> Map<usize, OpenFile> {
        self.fd_table@
    }

    /// The descriptor the next open gets.
    pub closed spec fn next_fd_spec(&self) -> usize {
        self.next_fd
    }

    /// The inode number the next directory created gets.
    pub closed spec fn next_inode_spec(&self) -> u64 {
        self.next_inode
    }

    /// The root mount point, if `/` was mounted.
    pub closed spec fn root_mount(&self) -> Option<usize> {
        self.root
    }

    /// Every filesystem is well formed, every mount path fits in memory and
    /// every open file refers to a node of its mount and has a descriptor
    /// below the next one to be handed out.
    pub open spec fn wf(&self) -> bool {
        &&& forall|i: int|
            0 <= i < self.mount_seq().len() ==> (#[trigger] self.mount_seq()[i]).filesystem.wf()
                && utf8_len(self.mount_seq()[i].path@) <= usize::MAX
        &&& forall|fd: usize|
            #[trigger] self.fds().contains_key(fd) ==> self.fds()[fd].mount < self.mount_seq().len()
                && self.mount_seq()[self.fds()[fd].mount as int].filesystem.valid(&self.fds()[fd].file)
                && fd < self.next_fd_spec()
    }

    /// Where `path` leads: the mount, the node and the name it is opened under.
    pub open spec fn resolve_spec(&self, path: Seq<char>) -> VfsResult<(usize, usize, Seq<char>)> {
        match best_mount(self.mount_paths(), path) {
            None => Err(VfsError::NotFound),
            Some(b) => match open_spec(
                self.mount_seq()[b].filesystem@,
                relative_path(self.mount_paths()[b], path),
            ) {
                Ok((n, nm)) => Ok((b as usize, n, nm)),
                Err(e) => Err(e),
            },
        }
    }

    /// A VFS with no mounts and no open files.
    pub fn new() -> (r: Self)
        ensures
            r.wf(),
            r.mount_seq().len() == 0,
            r.fds() == Map::<usize, OpenFile>::empty(),
            r.next_fd_spec() == 0,
            r.next_inode_spec() == 2,
            r.root_mount().is_none(),
    {
        VirtualFilesystem { root: None, mounts: Vec::new(), fd_table: BTreeMap::new(), next_fd: 0, next_inode: 2 }
    }

    /// Mount `filesystem` at `path`; mounting at `/` makes it the root.
    pub fn mount(&mut self, path: &str, filesystem: TmpFs) -> (r: VfsResult<()>)
        requires
            old(self).wf(),
            filesystem.wf(),
            utf8_len(path@) <= usize::MAX,
        ensures
            final(self).wf(),
            r == Ok::<(), VfsError>(()),
            final(self).mount_seq().len() == old(self).mount_seq().len() + 1,
            final(self).mount_seq().last().path@ == path@,
            final(self).mount_seq().last().filesystem == filesystem,
            forall|i: int|
                0 <= i < old(self).mount_seq().len() ==> #[trigger] final(self).mount_seq()[i]
                    == old(self).mount_seq()[i],
            final(self).root_mount() == if path@ == seq!['/'] {
                Some(old(self).mount_seq().len() as usize)
            } else {
                old(self).root_mount()
            },
            final(self).fds() == old(self).fds(),
            final(self).next_fd_spec() == old(self).next_fd_spec(),
            final(self).next_inode_spec() == old(self).next_inode_spec(),
    {
        let index = self.mounts.len();
        let mp = MountPoint::new(String::from_str(path), filesystem);
        proof {
            reveal_strlit("/");
            assert("/"@ =~= seq!['/']);
        }
        if str_eq(path, "/") {
            self.root = Some(index);
        }
        self.mounts.push(mp);
        proof {
            assert forall|fd: usize| #[trigger] self.fds().contains_key(fd) implies self.fds()[fd].mount < self.mount_seq().len()
                && self.mount_seq()[self.fds()[fd].mount as int].filesystem.valid(&self.fds()[fd].file) by {
                assert(self.mount_seq()[self.fds()[fd].mount as int] == old(self).mount_seq()[self.fds()[fd].mount as int]);
            }
        }
        Ok(())
    }

    /// Find the mount for `path` and open the node it names there.
    fn resolve_path(&self, path: &str) -> (r: VfsResult<(usize, TmpNode)>)
        requires
            self.wf(),
        ensures
            match self.resolve_spec(path@) {
                Ok((b, n, nm)) => r matches Ok((b2, h)) && b2 == b && h.node == n && h.name@ == nm
                    && b < self.mount_seq().len() && self.mount_seq()[b as int].filesystem.valid(&h)
                    && h.kind == kind_of(self.mount_seq()[b as int].filesystem@[n as int]),
                Err(e) => r matches Err(e2) && e2 == e,
            },
    {
        let ghost paths = self.mount_paths();
        let mut best: Option<usize> = None;
        let mut best_len: usize = 0;
        let mut i: usize = 0;
        while i < self.mounts.len()
            invariant
                self.wf(),
                paths == self.mount_paths(),
                i <= self.mounts@.len(),
                best == match best_mount(paths.subrange(0, i as int), path@) {
                    Some(j) => Some(j as usize),
                    None => None,
                },
                best_len == match best_mount(paths.subrange(0, i as int), path@) {
                    Some(j) => utf8_len(paths[j]),
                    None => 0,
                },
                forall|j: int| 0 <= j < i ==> #[trigger] paths.subrange(0, i as int)[j] == paths[j],
                match best_mount(paths.subrange(0, i as int), path@) {
                    Some(j) => 0 <= j < i,
                    None => true,
                },
            decreases self.mounts@.len() - i,
        {
            let ghost sub = paths.subrange(0, i + 1);
            assert(sub.drop_last() =~= paths.subrange(0, i as int));
            assert(sub[i as int] == self.mounts@[i as int].path@);
            assert(self.mount_seq()[i as int].filesystem.wf());
            let mp = self.mounts[i].path.as_str();
            if starts_with(path, mp) {
                let l = utf8_byte_len(mp);
                if l > best_len {
                    best = Some(i);
                    best_len = l;
                }
            }
            proof {
                assert forall|j: int| 0 <= j < i + 1 implies #[trigger] paths.subrange(0, i + 1)[j] == paths[j] by {}
            }
            i = i + 1;
        }
        assert(paths.subrange(0, self.mounts@.len() as int) =~= paths);
        match best {
            None => Err(VfsError::NotFound),
            Some(b) => {
                proof {
                    lemma_best_mount(paths, path@);
                }
                let mount = &self.mounts[b];
                assert(mount.filesystem.wf());
                assert(mount.path@ == paths[b as int]);
                let mp = mount.path.as_str();
                assert(is_prefix(mp@, path@));
                let rel = if best_len > 1 {
                    let m = mp.unicode_len();
                    let n = path.unicode_len();
                    path.substring_char(m, n)
                } else {
                    path
                };
                assert(rel@ == relative_path(paths[b as int], path@));
                match mount.filesystem.open(rel) {
                    Ok(h) => Ok((b, h)),
                    Err(e) => Err(e),
                }
            },
        }
    }

    /// Open the file at `path` with `flags`; returns its new descriptor.
    /// Opening for writing what no one may write is refused.
    pub fn open(&mut self, path: &str, flags: OpenFlags) -> (r: VfsResult<Fd>)
        requires
            old(self).wf(),
            old(self).next_fd_spec() < usize::MAX,
        ensures
            final(self).wf(),
            final(self).mount_seq() == old(self).mount_seq(),
            final(self).root_mount() == old(self).root_mount(),
            final(self).next_inode_spec() == old(self).next_inode_spec(),
            match old(self).resolve_spec(path@) {
                Err(e) => r == Err::<Fd, VfsError>(e) && *final(self) == *old(self),
                Ok((b, n, nm)) => {
                    let perms = old(self).mount_seq()[b as int].filesystem@[n as int].metadata.permissions;
                    if flags.spec_bits() & 2 == 2 && !(perms.owner_write || perms.group_write
                        || perms.other_write) {
                        r == Err::<Fd, VfsError>(VfsError::PermissionDenied) && *final(self)
                            == *old(self)
                    } else {
                        let fd = old(self).next_fd_spec();
                        &&& r == Ok::<Fd, VfsError>(fd)
                        &&& final(self).next_fd_spec() == fd + 1
                        &&& final(self).fds().dom() == old(self).fds().dom().insert(fd)
                        &&& final(self).fds()[fd].mount == b
                        &&& final(self).fds()[fd].file.node == n
                        &&& final(self).fds()[fd].file.name@ == nm
                        &&& final(self).fds()[fd].position == 0
                        &&& final(self).fds()[fd].flags == flags
                        &&& forall|k: usize| k != fd && #[trigger] old(self).fds().contains_key(k)
                            ==> final(self).fds()[k] == old(self).fds()[k]
                    }
                },
            },
    {
        let (b, file) = match self.resolve_path(path) {
            Ok(x) => x,
            Err(e) => {
                return Err(e);
            },
        };
        if flags.contains(OpenFlags::write()) {
            let meta = match self.mounts[b].filesystem.metadata(&file) {
                Ok(m) => m,
                Err(e) => {
                    return Err(e);
                },
            };
            if !meta.permissions.writable() {
                return Err(VfsError::PermissionDenied);
            }
        }
        let fd = self.next_fd;
        let open_file = OpenFile::new(b, file, flags);
        self.fd_table.insert(fd, open_file);
        self.next_fd = self.next_fd + 1;
        proof {
            assert forall|k: usize| #[trigger] self.fds().contains_key(k) implies self.fds()[k].mount < self.mount_seq().len()
                && self.mount_seq()[self.fds()[k].mount as int].filesystem.valid(&self.fds()[k].file) by {
                if k != fd {
                    assert(old(self).fds().contains_key(k));
                }
            }
        }
        Ok(fd)
    }

    /// Read from an open file descriptor at its position, which advances by
    /// the bytes read.
    pub fn read(&mut self, fd: Fd, buf: &mut [u8]) -> (r: VfsResult<usize>)
        requires
            old(self).wf(),
            old(self).fds().contains_key(fd) ==> old(self).fds()[fd].position + old(buf)@.len()
                <= usize::MAX,
        ensures
            final(self).wf(),
            final(self).mount_seq() == old(self).mount_seq(),
            final(self).next_fd_spec() == old(self).next_fd_spec(),
            final(self).next_inode_spec() == old(self).next_inode_spec(),
            final(self).root_mount() == old(self).root_mount(),
            if !old(self).fds().contains_key(fd) {
                r == Err::<usize, VfsError>(VfsError::InvalidSeek) && final(buf)@ == old(buf)@
                    && final(self).fds() == old(self).fds()
            } else {
                let of = old(self).fds()[fd];
                &&& read_at_post(
                    old(self).mount_seq()[of.mount as int].filesystem@,
                    of.file.node,
                    of.file.kind,
                    of.position,
                    old(buf)@,
                    final(buf)@,
                    r,
                )
                &&& final(self).fds() == match r {
                    Ok(k) => old(self).fds().insert(fd, OpenFile { position: (of.position + k) as u64, ..of }),
                    Err(_) => old(self).fds(),
                }
            },
    {
        let entry = self.fd_table.remove(&fd);
        match entry {
            None => {
                assert(self.fds() =~= old(self).fds());
                proof {
                    self.lemma_wf_frame(*old(self));
                }
                Err(VfsError::InvalidSeek)
            },
            Some(mut open_file) => {
                let ghost of = open_file;
                assert(self.fds() == old(self).fds().remove(fd));
                let res = self.mounts[open_file.mount].filesystem.read_at(&open_file.file, buf, open_file.position);
                match res {
                    Ok(k) => {
                        open_file.position = open_file.position + k as u64;
                        self.fd_table.insert(fd, open_file);
                        proof {
                            self.lemma_wf_frame(*old(self));
                        }
                        Ok(k)
                    },
                    Err(e) => {
                        self.fd_table.insert(fd, open_file);
                        proof {
                            assert(self.fds() =~= old(self).fds());
                            self.lemma_wf_frame(*old(self));
                        }
                        Err(e)
                    },
                }
            },
        }
    }

    /// Write to an open file descriptor at its position, which advances by
    /// the bytes written.
    pub fn write(&mut self, fd: Fd, buf: &[u8]) -> (r: VfsResult<usize>)
        requires
            old(self).wf(),
            old(self).fds().contains_key(fd) ==> old(self).fds()[fd].position + buf@.len()
                <= usize::MAX,
        ensures
            final(self).wf(),
            final(self).mount_seq().len() == old(self).mount_seq().len(),
            final(self).next_fd_spec() == old(self).next_fd_spec(),
            final(self).next_inode_spec() == old(self).next_inode_spec(),
            final(self).root_mount() == old(self).root_mount(),
            if !old(self).fds().contains_key(fd) {
                r == Err::<usize, VfsError>(VfsError::InvalidSeek) && final(self).fds() == old(self).fds()
                    && final(self).mount_seq() == old(self).mount_seq()
            } else {
                let of = old(self).fds()[fd];
                &&& write_at_post(
                    old(self).mount_seq()[of.mount as int].filesystem@,
                    final(self).mount_seq()[of.mount as int].filesystem@,
                    of.file.node,
                    of.file.kind,
                    buf@,
                    of.position,
                    r,
                )
                &&& final(self).mount_seq()[of.mount as int].path == old(self).mount_seq()[of.mount as int].path
                &&& forall|i: int| 0 <= i < old(self).mount_seq().len() && i != of.mount
                    ==> #[trigger] final(self).mount_seq()[i] == old(self).mount_seq()[i]
                &&& final(self).fds() == match r {
                    Ok(k) => old(self).fds().insert(fd, OpenFile { position: (of.position + k) as u64, ..of }),
                    Err(_) => old(self).fds(),
                }
            },
    {
        let entry = self.fd_table.remove(&fd);
        match entry {
            None => {
                assert(self.fds() =~= old(self).fds());
                proof {
                    self.lemma_wf_frame(*old(self));
                }
                Err(VfsError::InvalidSeek)
            },
            Some(mut open_file) => {
                let ghost of = open_file;
                assert(self.fds() == old(self).fds().remove(fd));
                let m = open_file.mount;
                let res = self.mounts[m].filesystem.write_at(&open_file.file, buf, open_file.position);
                match res {
                    Ok(k) => {
                        open_file.position = open_file.position + k as u64;
                        self.fd_table.insert(fd, open_file);
                        proof {
                            self.lemma_wf_one_mount(*old(self), m as int);
                        }
                        Ok(k)
                    },
                    Err(e) => {
                        self.fd_table.insert(fd, open_file);
                        proof {
                            assert(self.fds() =~= old(self).fds());
                            self.lemma_wf_one_mount(*old(self), m as int);
                        }
                        Err(e)
                    },
                }
            },
        }
    }

    /// Close a file descriptor.
    pub fn close(&mut self, fd: Fd) -> (r: VfsResult<()>)
        requires
            old(self).wf(),
        ensures
            final(self).wf(),
            final(self).mount_seq() == old(self).mount_seq(),
            final(self).next_fd_spec() == old(self).next_fd_spec(),
            final(self).next_inode_spec() == old(self).next_inode_spec(),
            final(self).root_mount() == old(self).root_mount(),
            final(self).fds() == old(self).fds().remove(fd),
            r == if old(self).fds().contains_key(fd) {
                Ok::<(), VfsError>(())
            } else {
                Err(VfsError::InvalidSeek)
            },
    {
        let entry = self.fd_table.remove(&fd);
        proof {
            self.lemma_wf_frame(*old(self));
        }
        match entry {
            None => Err(VfsError::InvalidSeek),
            Some(_) => Ok(()),
        }
    }

    /// The metadata of the file at `path`.
    pub fn stat(&self, path: &str) -> (r: VfsResult<FileMetadata>)
        requires
            self.wf(),
        ensures
            r == match self.resolve_spec(path@) {
                Ok((b, n, _)) => Ok(self.mount_seq()[b as int].filesystem@[n as int].metadata),
                Err(e) => Err::<FileMetadata, VfsError>(e),
            },
    {
        let (b, file) = match self.resolve_path(path) {
            Ok(x) => x,
            Err(e) => {
                return Err(e);
            },
        };
        self.mounts[b].filesystem.metadata(&file)
    }

    /// The names in the directory at `path`: `.`, `..` and its entries.
    pub fn readdir(&self, path: &str) -> (r: VfsResult<Vec<String>>)
        requires
            self.wf(),
        ensures
            match self.resolve_spec(path@) {
                Err(e) => r is Err && r->Err_0 == e,
                Ok((b, n, _)) => {
                    let node = self.mount_seq()[b as int].filesystem@[n as int];
                    if node.metadata.file_type != FileType::Directory {
                        r is Err && r->Err_0 == VfsError::NotADirectory
                    } else {
                        readdir_post(self.mount_seq()[b as int].filesystem@, n, kind_of(node), r)
                    }
                },
            },
    {
        let (b, file) = match self.resolve_path(path) {
            Ok(x) => x,
            Err(e) => {
                return Err(e);
            },
        };
        let meta = match self.mounts[b].filesystem.metadata(&file) {
            Ok(m) => m,
            Err(e) => {
                return Err(e);
            },
        };
        if meta.file_type != FileType::Directory {
            return Err(VfsError::NotADirectory);
        }
        self.mounts[b].filesystem.readdir(&file)
    }

    /// Create the directory `path`: the entry named by its last component
    /// in the directory named by the rest.
    pub fn mkdir(&mut self, path: &str) -> (r: VfsResult<()>)
        requires
            old(self).wf(),
        ensures
            final(self).wf(),
            final(self).mount_seq().len() == old(self).mount_seq().len(),
            final(self).fds() == old(self).fds(),
            final(self).next_fd_spec() == old(self).next_fd_spec(),
            final(self).root_mount() == old(self).root_mount(),
            match old(self).resolve_spec(spec_parent(path@)) {
                Err(e) => r == Err::<(), VfsError>(e) && final(self).mount_seq() == old(self).mount_seq()
                    && final(self).next_inode_spec() == old(self).next_inode_spec(),
                Ok((b, n, _)) => {
                    &&& mkdir_post(
                        old(self).mount_seq()[b as int].filesystem@,
                        final(self).mount_seq()[b as int].filesystem@,
                        old(self).next_inode_spec(),
                        final(self).next_inode_spec(),
                        n,
                        kind_of(old(self).mount_seq()[b as int].filesystem@[n as int]),
                        spec_basename(path@),
                        r,
                    )
                    &&& final(self).mount_seq()[b as int].path == old(self).mount_seq()[b as int].path
                    &&& forall|i: int| 0 <= i < old(self).mount_seq().len() && i != b
                        ==> #[trigger] final(self).mount_seq()[i] == old(self).mount_seq()[i]
                },
            },
    {
        let parent_path = Path::parent(path);
        let name = Path::basename(path);
        let (b, parent) = match self.resolve_path(parent_path) {
            Ok(x) => x,
            Err(e) => {
                return Err(e);
            },
        };
        let r = self.mounts[b].filesystem.mkdir(&parent, name, &mut self.next_inode);
        proof {
            self.lemma_wf_one_mount(*old(self), b as int);
        }
        r
    }

    /// Remove the entry named by the last component of `path` from the
    /// directory named by the rest.
    pub fn unlink(&mut self, path: &str) -> (r: VfsResult<()>)
        requires
            old(self).wf(),
        ensures
            final(self).wf(),
            final(self).mount_seq().len() == old(self).mount_seq().len(),
            final(self).fds() == old(self).fds(),
            final(self).next_fd_spec() == old(self).next_fd_spec(),
            final(self).next_inode_spec() == old(self).next_inode_spec(),
            final(self).root_mount() == old(self).root_mount(),
            match old(self).resolve_spec(spec_parent(path@)) {
                Err(e) => r == Err::<(), VfsError>(e) && final(self).mount_seq() == old(self).mount_seq(),
                Ok((b, n, _)) => {
                    &&& unlink_post(
                        old(self).mount_seq()[b as int].filesystem@,
                        final(self).mount_seq()[b as int].filesystem@,
                        n,
                        kind_of(old(self).mount_seq()[b as int].filesystem@[n as int]),
                        spec_basename(path@),
                        r,
                    )
                    &&& final(self).mount_seq()[b as int].path == old(self).mount_seq()[b as int].path
                    &&& forall|i: int| 0 <= i < old(self).mount_seq().len() && i != b
                        ==> #[trigger] final(self).mount_seq()[i] == old(self).mount_seq()[i]
                },
            },
    {
        let parent_path = Path::parent(path);
        let name = Path::basename(path);
        let (b, parent) = match self.resolve_path(parent_path) {
            Ok(x) => x,
            Err(e) => {
                return Err(e);
            },
        };
        let r = self.mounts[b].filesystem.unlink(&parent, name);
        proof {
            self.lemma_wf_one_mount(*old(self), b as int);
        }
        r
    }

    /// Well-formedness carries over when only the filesystem of mount `m`
    /// changed, stays well formed and keeps at least its inodes, and every
    /// open file stands, with the same mount and node, in `pre`.
    proof fn lemma_wf_one_mount(&self, pre: Self, m: int)
        requires
            pre.wf(),
            0 <= m < pre.mount_seq().len(),
            self.next_fd_spec() == pre.next_fd_spec(),
            self.mount_seq().len() == pre.mount_seq().len(),
            self.mount_seq()[m].path == pre.mount_seq()[m].path,
            self.mount_seq()[m].filesystem.wf(),
            self.mount_seq()[m].filesystem@.len() >= pre.mount_seq()[m].filesystem@.len(),
            forall|i: int| 0 <= i < pre.mount_seq().len() && i != m ==> #[trigger] self.mount_seq()[i] == pre.mount_seq()[i],
            forall|k: usize| #[trigger] self.fds().contains_key(k) ==> pre.fds().contains_key(k)
                && self.fds()[k].mount == pre.fds()[k].mount && self.fds()[k].file == pre.fds()[k].file,
        ensures
            self.wf(),
    {
        assert forall|i: int| 0 <= i < self.mount_seq().len() implies (#[trigger] self.mount_seq()[i]).filesystem.wf()
            && utf8_len(self.mount_seq()[i].path@) <= usize::MAX by {
            if i != m {
                assert(self.mount_seq()[i] == pre.mount_seq()[i]);
            } else {
                assert(pre.mount_seq()[i].filesystem.wf());
            }
        }
        assert forall|k: usize| #[trigger] self.fds().contains_key(k) implies self.fds()[k].mount < self.mount_seq().len()
            && self.mount_seq()[self.fds()[k].mount as int].filesystem.valid(&self.fds()[k].file) by {
            assert(pre.fds().contains_key(k));
            let mk = self.fds()[k].mount as int;
            if mk != m {
                assert(self.mount_seq()[mk] == pre.mount_seq()[mk]);
            }
        }
    }

    /// Well-formedness carries over to a VFS with the same mounts whose open
    /// files each stand, with the same mount and node, in `pre`.
    proof fn lemma_wf_frame(&self, pre: Self)
        requires
            pre.wf(),
            self.mount_seq() == pre.mount_seq(),
            self.next_fd_spec() == pre.next_fd_spec(),
            forall|k: usize| #[trigger] self.fds().contains_key(k) ==> pre.fds().contains_key(k)
                && self.fds()[k].mount == pre.fds()[k].mount && self.fds()[k].file == pre.fds()[k].file,
        ensures
            self.wf(),
    {
        assert forall|i: int| 0 <= i < self.mount_seq().len() implies (#[trigger] self.mount_seq()[i]).filesystem.wf()
            && utf8_len(self.mount_seq()[i].path@) <= usize::MAX by {
            assert(self.mount_seq()[i] == pre.mount_seq()[i]);
        }
        assert forall|k: usize| #[trigger] self.fds().contains_key(k) implies self.fds()[k].mount < self.mount_seq().len()
            && self.mount_seq()[self.fds()[k].mount as int].filesystem.valid(&self.fds()[k].file) by {
            assert(pre.fds().contains_key(k));
        }
    }
}

/// Closing the descriptor that `open` handed out leaves the open files as
/// they were before the open: `v1` holds what `open` makes of `v0` when it
/// succeeds with `fd`.
pub proof fn lemma_open_then_close(v0: VirtualFilesystem, v1: VirtualFilesystem, fd: usize)
    requires
        v0.wf(),
        fd == v0.next_fd_spec(),
        v1.fds().dom() == v0.fds().dom().insert(fd),
        forall|k: usize| k != fd && #[trigger] v0.fds().contains_key(k) ==> v1.fds()[k] == v0.fds()[k],
    ensures
        !v0.fds().contains_key(fd),
        v1.fds().remove(fd) == v0.fds(),
{
    assert(v1.fds().remove(fd) =~= v0.fds());
}

/// Descriptors are never reused: every descriptor an open hands out is new.
pub proof fn lemma_fresh_descriptor(v: VirtualFilesystem)
    requires
        v.wf(),
    ensures
        !v.fds().contains_key(v.next_fd_spec()),
{
}

} // verus!
