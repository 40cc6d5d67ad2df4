//! Filesystem implementations.

use vstd::prelude::*;
use crate::vfs::VfsResult;
use self::tmpfs::TmpNode;
use vstd::string::*;
use crate::fmt::{append_decimal, decimal};

pub mod tmpfs;

verus! {

/// Filesystem statistics.
#[derive(Debug, Clone, Copy)]
pub struct FsStats {
    pub block_size: u64,
    pub total_blocks: u64,
    pub free_blocks: u64,
    pub total_inodes: u64,
    pub free_inodes: u64,
    pub fs_type: &'static str,
}

impl FsStats {
    /// The statistics as four lines of text: type, block size, blocks and
    /// inodes.
    pub fn to_string(&self) -> (r: String)
        ensures
            r@ == "Filesystem: "@ + self.fs_type@ + "\nBlock size: "@ + decimal(self.block_size as nat)
                + " bytes\nTotal blocks: "@ + decimal(self.total_blocks as nat) + ", Free: "@ + decimal(
                self.free_blocks as nat,
            ) + "\nTotal inodes: "@ + decimal(self.total_inodes as nat) + ", Free: "@ + decimal(
                self.free_inodes as nat,
            ),
    {
        let mut out = String::from_str("Filesystem: ");
        out.append(self.fs_type);
        out.append("\nBlock size: ");
        append_decimal(&mut out, self.block_size);
        out.append(" bytes\nTotal blocks: ");
        append_decimal(&mut out, self.total_blocks);
        out.append(", Free: ");
        append_decimal(&mut out, self.free_blocks);
        out.append("\nTotal inodes: ");
        append_decimal(&mut out, self.total_inodes);
        out.append(", Free: ");
        append_decimal(&mut out, self.free_inodes);
        out
    }
}

/// The interface of a filesystem: open a path, report statistics, sync,
/// and name its type.
pub trait Filesystem {
    /// Whether the filesystem's own invariant holds.
    spec fn fs_wf(&self) -> bool;

    /// Open a file or directory at the specified path.
    fn open(&self, path: &str) -> VfsResult<TmpNode>
        requires
            self.fs_wf(),
    ;

    /// Get filesystem statistics.
    fn statfs(&self) -> VfsResult<FsStats>;

    /// Sync all pending writes.
    fn sync(&self) -> VfsResult<()>;

    /// Get the filesystem type name.
    fn fs_type(&self) -> &'static str;
}

} // verus!
