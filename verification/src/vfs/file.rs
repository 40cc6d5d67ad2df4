//! File types, permissions and metadata.

use vstd::prelude::*;

verus! {

/// File type enumeration.
#[derive(Debug, Clone, Copy, PartialEq, Eq, Structural)]
pub enum FileType {
    RegularFile,
    Directory,
    Symlink,
    BlockDevice,
    CharacterDevice,
    Fifo,
    Socket,
}

/// File permissions (Unix-style).
#[derive(Debug, Clone, Copy, PartialEq, Eq, Structural)]
pub struct Permissions {
    pub owner_read: bool,
    pub owner_write: bool,
    pub owner_exec: bool,
    pub group_read: bool,
    pub group_write: bool,
    pub group_exec: bool,
    pub other_read: bool,
    pub other_write: bool,
    pub other_exec: bool,
}

/// The default permissions: read for everyone, write for the owner (0644).
pub open spec fn default_permissions() -> Permissions {
    Permissions {
        owner_read: true,
        owner_write: true,
        owner_exec: false,
        group_read: true,
        group_write: false,
        group_exec: false,
        other_read: true,
        other_write: false,
        other_exec: false,
    }
}

impl Permissions {
    /// The default permissions (0644).
    pub fn new() -> (r: Self)
        ensures
            r == default_permissions(),
    {
        Permissions {
            owner_read: true,
            owner_write: true,
            owner_exec: false,
            group_read: true,
            group_write: false,
            group_exec: false,
            other_read: true,
            other_write: false,
            other_exec: false,
        }
    }

    /// Whether anyone may write.
    pub fn writable(&self) -> (r: bool)
        ensures
            r == (self.owner_write || self.group_write || self.other_write),
    {
        self.owner_write || self.group_write || self.other_write
    }

    /// Whether anyone may read.
    pub fn readable(&self) -> (r: bool)
        ensures
            r == (self.owner_read || self.group_read || self.other_read),
    {
        self.owner_read || self.group_read || self.other_read
    }
}

impl Default for Permissions {
    fn default() -> (r: Self)
        ensures
            r == default_permissions(),
    {
        Self::new()
    }
}

/// File metadata.
#[derive(Debug, Clone, Copy, PartialEq, Eq, Structural)]
pub struct FileMetadata {
    pub file_type: FileType,
    pub size: u64,
    pub permissions: Permissions,
    pub inode: u64,
    pub created_at: u64,
    pub modified_at: u64,
    pub accessed_at: u64,
    pub uid: u32,
    pub gid: u32,
    pub link_count: u32,
}

impl FileMetadata {
    /// Whether this is a regular file.
    pub fn is_file(&self) -> (r: bool)
        ensures
            r == (self.file_type == FileType::RegularFile),
    {
        self.file_type == FileType::RegularFile
    }

    /// Whether this is a directory.
    pub fn is_dir(&self) -> (r: bool)
        ensures
            r == (self.file_type == FileType::Directory),
    {
        self.file_type == FileType::Directory
    }

    /// Whether this is a symbolic link.
    pub fn is_symlink(&self) -> (r: bool)
        ensures
            r == (self.file_type == FileType::Symlink),
    {
        self.file_type == FileType::Symlink
    }
}

} // verus!
