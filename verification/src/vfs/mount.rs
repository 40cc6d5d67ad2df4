//! Mount point management.

use vstd::prelude::*;
use vstd::string::*;
use crate::fs::tmpfs::{TmpFs, TmpNode, open_spec, kind_of};
use super::{VfsError, VfsResult};

verus! {

/// A mount point: a filesystem mounted at a path.
#[derive(Debug)]
pub struct MountPoint {
    /// The path where this filesystem is mounted.
    pub path: String,
    /// The filesystem.
    pub filesystem: TmpFs,
}

impl MountPoint {
    /// A mount point for `filesystem` at `path`.
    pub fn new(path: String, filesystem: TmpFs) -> (r: Self)
        ensures
            r.path == path,
            r.filesystem == filesystem,
    {
        MountPoint { path, filesystem }
    }

    /// Open the root directory of the mounted filesystem.
    pub fn root(&self) -> (r: VfsResult<TmpNode>)
        requires
            self.filesystem.wf(),
        ensures
            r matches Ok(h) && h.node == 0 && h.name@ == seq!['/'] && self.filesystem.valid(&h)
                && h.kind == kind_of(self.filesystem@[0]),
    {
        proof {
            reveal_strlit("/");
            assert("/"@ =~= seq!['/']);
            assert(seq!['/'].drop_first() =~= Seq::<char>::empty());
            assert(crate::vfs::path::trim_start_slashes(Seq::<char>::empty()) == Seq::<char>::empty());
            assert(crate::vfs::path::trim_start_slashes(seq!['/']) =~= Seq::<char>::empty());
            assert(open_spec(self.filesystem@, "/"@) == Ok::<(usize, Seq<char>), VfsError>((0usize, seq!['/'])));
        }
        self.filesystem.open("/")
    }
}

} // verus!
