//! tmpfs: a temporary filesystem stored in memory.
//!
//! Inodes live in an arena; a directory lists its entries sorted by name
//! (the order of a `BTreeMap<String, _>`), each naming an inode of the arena.
//! An open file or directory is a [`TmpNode`]: the inode it refers to, the
//! name it was opened under and whether it was opened as a file or as a
//! directory.

use vstd::prelude::*;
use vstd::string::*;
use crate::text::{lex_less, str_eq, str_less, lemma_lex_less_total, lemma_lex_less_trans};
use crate::vfs::file::{FileMetadata, FileType, Permissions, default_permissions};
use crate::vfs::{VfsError, VfsResult};
use crate::vfs::path::{trim_end_slashes, trim_start_slashes, split_acc, split_slash, trimmed_end_len, trimmed_start_len};
use super::{Filesystem, FsStats};

verus! {

/// A directory entry: a name and the inode it names.
#[derive(Debug)]
pub struct DirEntry {
    pub name: String,
    pub node: usize,
}

/// Contents of an inode.
#[derive(Debug)]
pub enum NodeData {
    /// A regular file and its bytes.
    File(Vec<u8>),
    /// A directory and its entries, sorted by name.
    Directory(Vec<DirEntry>),
}

/// A tmpfs inode.
#[derive(Debug)]
pub struct Inode {
    pub id: u64,
    pub data: NodeData,
    pub metadata: FileMetadata,
}

/// Whether an open node was opened as a file or as a directory.
#[derive(Debug, Clone, Copy, PartialEq, Eq, Structural)]
pub enum NodeKind {
    File,
    Directory,
}

/// An open file or directory of a tmpfs.
#[derive(Debug)]
pub struct TmpNode {
    /// Index of the inode in the filesystem's arena.
    pub node: usize,
    /// The name the node was opened under.
    pub name: String,
    /// Whether it was opened as a file or as a directory.
    pub kind: NodeKind,
}

/// The contents of an inode, as mathematical values.
pub enum NodeView {
    File(Seq<u8>),
    Directory(Seq<(Seq<char>, usize)>),
}

/// An inode, as mathematical values.
pub struct InodeView {
    pub id: u64,
    pub data: NodeView,
    pub metadata: FileMetadata,
}

/// The entries of a directory as (name, inode) pairs.
pub open spec fn entries_view(es: Seq<DirEntry>) -> Seq<(Seq<char>, usize)> {
    es.map_values(|e: DirEntry| (e.name@, e.node))
}

/// The view of an inode.
pub open spec fn inode_view(n: Inode) -> InodeView {
    InodeView {
        id: n.id,
        data: match n.data {
            NodeData::File(v) => NodeView::File(v@),
            NodeData::Directory(es) => NodeView::Directory(entries_view(es@)),
        },
        metadata: n.metadata,
    }
}

/// The inode that `n` names in the directory entries `es`.
pub open spec fn dir_lookup<V>(es: Seq<(Seq<char>, V)>, n: Seq<char>) -> Option<V>
    decreases es.len(),
{
    if es.len() == 0 {
        None
    } else if es[0].0 == n {
        Some(es[0].1)
    } else {
        dir_lookup(es.drop_first(), n)
    }
}

/// Whether the names of `es` are strictly increasing.
pub open spec fn sorted_names<V>(es: Seq<(Seq<char>, V)>) -> bool {
    forall|i: int, j: int| 0 <= i < j < es.len() ==> lex_less(#[trigger] es[i].0, #[trigger] es[j].0)
}

/// Metadata of a fresh inode.
pub open spec fn fresh_metadata(id: u64, file_type: FileType, link_count: u32) -> FileMetadata {
    FileMetadata {
        file_type,
        size: 0,
        permissions: default_permissions(),
        inode: id,
        created_at: 0,
        modified_at: 0,
        accessed_at: 0,
        uid: 0,
        gid: 0,
        link_count,
    }
}

/// A fresh, empty directory inode.
pub open spec fn fresh_directory(id: u64) -> InodeView {
    InodeView {
        id,
        data: NodeView::Directory(Seq::empty()),
        metadata: fresh_metadata(id, FileType::Directory, 2),
    }
}

pub(crate) proof fn lemma_dir_lookup<V>(es: Seq<(Seq<char>, V)>, n: Seq<char>)
    ensures
        match dir_lookup(es, n) {
            Some(v) => exists|i: int| 0 <= i < es.len() && es[i].0 == n && es[i].1 == v,
            None => forall|i: int| 0 <= i < es.len() ==> es[i].0 != n,
        },
    decreases es.len(),
{
    if es.len() > 0 {
        lemma_dir_lookup(es.drop_first(), n);
        if es[0].0 != n {
            match dir_lookup(es, n) {
                Some(v) => {
                    let i = choose|i: int|
                        0 <= i < es.drop_first().len() && es.drop_first()[i].0 == n
                            && es.drop_first()[i].1 == v;
                    assert(es[i + 1] == es.drop_first()[i]);
                },
                None => {
                    assert forall|i: int| 0 <= i < es.len() implies es[i].0 != n by {
                        if i > 0 {
                            assert(es[i] == es.drop_first()[i - 1]);
                        }
                    }
                },
            }
        } else {
            assert(es[0].0 == n);
        }
    }
}

pub(crate) proof fn lemma_dir_lookup_sorted<V>(es: Seq<(Seq<char>, V)>, i: int)
    requires
        sorted_names(es),
        0 <= i < es.len(),
    ensures
        dir_lookup(es, es[i].0) == Some(es[i].1),
{
    lemma_dir_lookup(es, es[i].0);
    match dir_lookup(es, es[i].0) {
        Some(v) => {
            let k = choose|k: int| 0 <= k < es.len() && es[k].0 == es[i].0 && es[k].1 == v;
            if k != i {
                if k < i {
                    assert(lex_less(es[k].0, es[i].0));
                } else {
                    assert(lex_less(es[i].0, es[k].0));
                }
                lemma_lex_less_total(es[i].0, es[i].0);
            }
        },
        None => {},
    }
}

/// In sorted entries, looking a name up finds exactly the entry with that name.
pub(crate) proof fn lemma_dir_lookup_exact<V>(es: Seq<(Seq<char>, V)>, n: Seq<char>)
    requires
        sorted_names(es),
    ensures
        match dir_lookup(es, n) {
            Some(v) => exists|i: int| 0 <= i < es.len() && es[i].0 == n && es[i].1 == v,
            None => forall|i: int| 0 <= i < es.len() ==> es[i].0 != n,
        },
        forall|i: int| 0 <= i < es.len() && es[i].0 == n ==> dir_lookup(es, n) == Some(es[i].1),
{
    lemma_dir_lookup(es, n);
    assert forall|i: int| 0 <= i < es.len() && es[i].0 == n implies dir_lookup(es, n) == Some(
        es[i].1,
    ) by {
        lemma_dir_lookup_sorted(es, i);
    }
}

/// Inserting an entry at its sorted place keeps the names sorted and adds
/// exactly that name.
pub(crate) proof fn lemma_sorted_insert<V>(es: Seq<(Seq<char>, V)>, p: int, n: Seq<char>, v: V)
    requires
        sorted_names(es),
        0 <= p <= es.len(),
        forall|i: int| 0 <= i < p ==> lex_less(#[trigger] es[i].0, n),
        forall|i: int| p <= i < es.len() ==> lex_less(n, #[trigger] es[i].0),
    ensures
        sorted_names(es.insert(p, (n, v))),
        forall|m: Seq<char>|
            #[trigger] dir_lookup(es.insert(p, (n, v)), m) == if m == n {
                Some(v)
            } else {
                dir_lookup(es, m)
            },
{
    let e = es.insert(p, (n, v));
    assert forall|i: int, j: int| 0 <= i < j < e.len() implies lex_less(
        #[trigger] e[i].0,
        #[trigger] e[j].0,
    ) by {
        if j == p {
            assert(e[i] == es[i]);
        } else if i == p {
            assert(e[j] == es[j - 1]);
        } else {
            let i2 = if i < p {
                i
            } else {
                i - 1
            };
            let j2 = if j < p {
                j
            } else {
                j - 1
            };
            assert(e[i] == es[i2]);
            assert(e[j] == es[j2]);
        }
    }
    assert forall|m: Seq<char>| #[trigger] dir_lookup(e, m) == if m == n {
        Some(v)
    } else {
        dir_lookup(es, m)
    } by {
        lemma_dir_lookup_exact(e, m);
        lemma_dir_lookup_exact(es, m);
        assert(e[p] == (n, v));
        if m != n {
            match dir_lookup(es, m) {
                Some(w) => {
                    let i = choose|i: int| 0 <= i < es.len() && es[i].0 == m && es[i].1 == w;
                    if i < p {
                        assert(e[i] == es[i]);
                    } else {
                        assert(e[i + 1] == es[i]);
                    }
                },
                None => {
                    assert forall|i: int| 0 <= i < e.len() implies e[i].0 != m by {
                        if i < p {
                            assert(e[i] == es[i]);
                        } else if i > p {
                            assert(e[i] == es[i - 1]);
                        }
                    }
                },
            }
        }
    }
}

/// Removing an entry keeps the names sorted and drops exactly that name.
pub(crate) proof fn lemma_sorted_remove<V>(es: Seq<(Seq<char>, V)>, k: int)
    requires
        sorted_names(es),
        0 <= k < es.len(),
    ensures
        sorted_names(es.remove(k)),
        forall|m: Seq<char>|
            #[trigger] dir_lookup(es.remove(k), m) == if m == es[k].0 {
                None
            } else {
                dir_lookup(es, m)
            },
{
    let e = es.remove(k);
    assert forall|i: int, j: int| 0 <= i < j < e.len() implies lex_less(
        #[trigger] e[i].0,
        #[trigger] e[j].0,
    ) by {
        let i2 = if i < k {
            i
        } else {
            i + 1
        };
        let j2 = if j < k {
            j
        } else {
            j + 1
        };
        assert(e[i] == es[i2]);
        assert(e[j] == es[j2]);
    }
    assert forall|m: Seq<char>| #[trigger] dir_lookup(e, m) == if m == es[k].0 {
        None
    } else {
        dir_lookup(es, m)
    } by {
        lemma_dir_lookup_exact(e, m);
        lemma_dir_lookup_exact(es, m);
        if m == es[k].0 {
            assert forall|i: int| 0 <= i < e.len() implies e[i].0 != m by {
                let i2 = if i < k {
                    i
                } else {
                    i + 1
                };
                assert(e[i] == es[i2]);
                if i2 < k {
                    assert(lex_less(es[i2].0, es[k].0));
                } else {
                    assert(lex_less(es[k].0, es[i2].0));
                }
                lemma_lex_less_total(m, m);
            }
        } else {
            match dir_lookup(es, m) {
                Some(w) => {
                    let i = choose|i: int| 0 <= i < es.len() && es[i].0 == m && es[i].1 == w;
                    if i < k {
                        assert(e[i] == es[i]);
                    } else {
                        assert(e[i - 1] == es[i]);
                    }
                },
                None => {
                    assert forall|i: int| 0 <= i < e.len() implies e[i].0 != m by {
                        let i2 = if i < k {
                            i
                        } else {
                            i + 1
                        };
                        assert(e[i] == es[i2]);
                    }
                },
            }
        }
    }
}

/// A directory inode lists inodes below `count`, sorted by name.
pub open spec fn node_ok(n: InodeView, count: nat) -> bool {
    match n.data {
        NodeView::Directory(es) => {
            &&& sorted_names(es)
            &&& forall|k: int| 0 <= k < es.len() ==> #[trigger] es[k].1 < count
        },
        NodeView::File(_) => true,
    }
}

/// tmpfs filesystem implementation.
#[derive(Debug)]
pub struct TmpFs {
    /// The inode arena; the root directory is inode 0.
    nodes: Vec<Inode>,
}

impl TmpFs {
    /// The inodes of the filesystem.
    pub closed spec fn view(&self) -> Seq<InodeView> {
        self.nodes@.map_values(|n: Inode| inode_view(n))
    }

    /// The root is a directory; every directory lists existing inodes, sorted by name.
    pub open spec fn wf(&self) -> bool {
        &&& self@.len() > 0
        &&& self@[0].data is Directory
        &&& forall|i: int| 0 <= i < self@.len() ==> node_ok(#[trigger] self@[i], self@.len())
    }

    /// A filesystem with only an empty root directory (inode 1).
    pub fn new() -> (r: Self)
        ensures
            r.wf(),
            r@ == seq![fresh_directory(1)],
    {
        let root = Inode {
            id: 1,
            data: NodeData::Directory(Vec::new()),
            metadata: new_metadata(1, FileType::Directory, 2),
        };
        let mut nodes: Vec<Inode> = Vec::new();
        nodes.push(root);
        let r = TmpFs { nodes };
        assert(entries_view(Seq::<DirEntry>::empty()) =~= Seq::empty());
        assert(r@ =~= seq![fresh_directory(1)]);
        r
    }

    /// Look `name` up among the entries of directory inode `dir`.
    fn find_entry(&self, dir: usize, name: &str) -> (r: Option<usize>)
        requires
            self.wf(),
            dir < self@.len(),
            self@[dir as int].data is Directory,
        ensures
            match r {
                Some(k) => {
                    &&& k < self@[dir as int].data->Directory_0.len()
                    &&& self@[dir as int].data->Directory_0[k as int].0 == name@
                    &&& dir_lookup(self@[dir as int].data->Directory_0, name@) == Some(
                        self@[dir as int].data->Directory_0[k as int].1,
                    )
                },
                None => dir_lookup(self@[dir as int].data->Directory_0, name@).is_none(),
            },
    {
        let ghost es = self@[dir as int].data->Directory_0;
        match &self.nodes[dir].data {
            NodeData::Directory(entries) => {
                assert(entries_view(entries@) == es);
                let mut k: usize = 0;
                while k < entries.len()
                    invariant
                        k <= entries@.len(),
                        entries_view(entries@) == es,
                        es == self@[dir as int].data->Directory_0,
                        sorted_names(es),
                        forall|j: int| 0 <= j < k ==> es[j].0 != name@,
                    decreases entries@.len() - k,
                {
                    if str_eq(entries[k].name.as_str(), name) {
                        proof {
                            lemma_dir_lookup_sorted(es, k as int);
                        }
                        return Some(k);
                    }
                    k = k + 1;
                }
                proof {
                    lemma_dir_lookup(es, name@);
                    if dir_lookup(es, name@) is Some {
                        let i = choose|i: int|
                            0 <= i < es.len() && es[i].0 == name@ && es[i].1 == dir_lookup(
                                es,
                                name@,
                            )->Some_0;
                        assert(false);
                    }
                }
                None
            },
            NodeData::File(_) => None,
        }
    }
}

/// The names of a directory's entries.
pub open spec fn entry_names<V>(es: Seq<(Seq<char>, V)>) -> Seq<Seq<char>> {
    es.map_values(|e: (Seq<char>, V)| e.0)
}

/// The character sequences of a list of strings.
pub open spec fn strings_view(v: Seq<String>) -> Seq<Seq<char>> {
    v.map_values(|s: String| s@)
}

/// Whether `es2` holds the names of `es` plus `name` (naming inode `v`), sorted.
pub open spec fn entries_with(es: Seq<(Seq<char>, usize)>, es2: Seq<(Seq<char>, usize)>, name: Seq<char>, v: usize) -> bool {
    &&& sorted_names(es2)
    &&& forall|m: Seq<char>|
        #[trigger] dir_lookup(es2, m) == if m == name {
            Some(v)
        } else {
            dir_lookup(es, m)
        }
}

/// Whether `es2` holds the names of `es` except `name`, sorted.
pub open spec fn entries_without(es: Seq<(Seq<char>, usize)>, es2: Seq<(Seq<char>, usize)>, name: Seq<char>) -> bool {
    &&& sorted_names(es2)
    &&& forall|m: Seq<char>|
        #[trigger] dir_lookup(es2, m) == if m == name {
            None
        } else {
            dir_lookup(es, m)
        }
}

/// The file bytes `data` after writing `buf` at `off`: zero-filled up to the
/// offset when it lies beyond the end, `buf` in place from the offset.
pub open spec fn written(data: Seq<u8>, buf: Seq<u8>, off: int) -> Seq<u8> {
    let len = if off + buf.len() > data.len() {
        off + buf.len()
    } else {
        data.len() as int
    };
    Seq::new(
        len as nat,
        |i: int|
            if off <= i < off + buf.len() {
                buf[i - off]
            } else if i < data.len() {
                data[i]
            } else {
                0u8
            },
    )
}

/// Number of bytes a read of `len` bytes at `off` returns from a file of
/// recorded size `size` holding `data`.
pub open spec fn read_count(data: Seq<u8>, size: u64, off: u64, len: int) -> int {
    if off >= size || off >= data.len() {
        0
    } else if off + len < data.len() {
        len
    } else {
        data.len() - off
    }
}

/// The bytes `d` cut to at most `n` bytes.
pub open spec fn truncated(d: Seq<u8>, n: usize) -> Seq<u8> {
    if n < d.len() {
        d.subrange(0, n as int)
    } else {
        d
    }
}

/// What `mkdir` does to the inodes `pre` (giving `post`) and to the next
/// inode number, for the directory `dir_node` opened as `kind`.
pub open spec fn mkdir_post(
    pre: Seq<InodeView>,
    post: Seq<InodeView>,
    pre_next: u64,
    post_next: u64,
    dir_node: usize,
    kind: NodeKind,
    name: Seq<char>,
    r: VfsResult<()>,
) -> bool {
    match (kind, pre[dir_node as int].data) {
        (NodeKind::Directory, NodeView::Directory(es)) => if dir_lookup(es, name) is Some {
            r == Err::<(), VfsError>(VfsError::AlreadyExists) && post == pre && post_next == pre_next
        } else {
            &&& r == Ok::<(), VfsError>(())
            &&& post.len() == pre.len() + 1
            &&& post.last() == fresh_directory(pre_next)
            &&& post_next == pre_next.wrapping_add(1)
            &&& post[dir_node as int].id == pre[dir_node as int].id
            &&& post[dir_node as int].metadata == pre[dir_node as int].metadata
            &&& post[dir_node as int].data matches NodeView::Directory(es2) && entries_with(
                es,
                es2,
                name,
                pre.len() as usize,
            )
            &&& forall|i: int| 0 <= i < pre.len() && i != dir_node ==> #[trigger] post[i] == pre[i]
        },
        _ => r == Err::<(), VfsError>(VfsError::NotADirectory) && post == pre && post_next == pre_next,
    }
}

/// What `unlink` does to the inodes `pre` (giving `post`), for the
/// directory `dir_node` opened as `kind`.
pub open spec fn unlink_post(
    pre: Seq<InodeView>,
    post: Seq<InodeView>,
    dir_node: usize,
    kind: NodeKind,
    name: Seq<char>,
    r: VfsResult<()>,
) -> bool {
    &&& post.len() == pre.len()
    &&& match (kind, pre[dir_node as int].data) {
        (NodeKind::Directory, NodeView::Directory(es)) => if dir_lookup(es, name) is Some {
            &&& r == Ok::<(), VfsError>(())
            &&& post[dir_node as int].id == pre[dir_node as int].id
            &&& post[dir_node as int].metadata == pre[dir_node as int].metadata
            &&& post[dir_node as int].data matches NodeView::Directory(es2) && entries_without(
                es,
                es2,
                name,
            )
            &&& forall|i: int| 0 <= i < pre.len() && i != dir_node ==> #[trigger] post[i] == pre[i]
        } else {
            r == Err::<(), VfsError>(VfsError::NotFound) && post == pre
        },
        _ => r == Err::<(), VfsError>(VfsError::NotADirectory) && post == pre,
    }
}

/// What `read_at` returns and leaves in the buffer (`old_buf` becoming
/// `new_buf`), reading inode `node` opened as `kind` at `off`.
pub open spec fn read_at_post(
    v: Seq<InodeView>,
    node: usize,
    kind: NodeKind,
    off: u64,
    old_buf: Seq<u8>,
    new_buf: Seq<u8>,
    r: VfsResult<usize>,
) -> bool {
    match kind {
        NodeKind::Directory => r == Err::<usize, VfsError>(VfsError::IsADirectory) && new_buf
            == old_buf,
        NodeKind::File => if off >= v[node as int].metadata.size {
            r == Ok::<usize, VfsError>(0) && new_buf == old_buf
        } else {
            match v[node as int].data {
                NodeView::File(d) => {
                    let k = read_count(d, v[node as int].metadata.size, off, old_buf.len() as int);
                    &&& r == Ok::<usize, VfsError>(k as usize)
                    &&& new_buf.len() == old_buf.len()
                    &&& forall|i: int|
                        0 <= i < old_buf.len() ==> #[trigger] new_buf[i] == if i < k {
                            d[off + i]
                        } else {
                            old_buf[i]
                        }
                },
                NodeView::Directory(_) => r == Err::<usize, VfsError>(VfsError::NotAFile) && new_buf
                    == old_buf,
            }
        },
    }
}

/// What `write_at` does to the inodes `pre` (giving `post`), writing `buf`
/// at `off` to inode `node` opened as `kind`.
pub open spec fn write_at_post(
    pre: Seq<InodeView>,
    post: Seq<InodeView>,
    node: usize,
    kind: NodeKind,
    buf: Seq<u8>,
    off: u64,
    r: VfsResult<usize>,
) -> bool {
    &&& post.len() == pre.len()
    &&& forall|i: int| 0 <= i < pre.len() && i != node ==> #[trigger] post[i] == pre[i]
    &&& match (kind, pre[node as int].data) {
        (NodeKind::Directory, _) => r == Err::<usize, VfsError>(VfsError::IsADirectory) && post
            == pre,
        (NodeKind::File, NodeView::File(d)) => {
            let nd = written(d, buf, off as int);
            &&& r == Ok::<usize, VfsError>(buf.len() as usize)
            &&& post[node as int] == (InodeView {
                id: pre[node as int].id,
                data: NodeView::File(nd),
                metadata: FileMetadata { size: nd.len() as u64, ..pre[node as int].metadata },
            })
        },
        (NodeKind::File, NodeView::Directory(_)) => r == Err::<usize, VfsError>(VfsError::NotAFile)
            && post == pre,
    }
}

/// What `readdir` returns for inode `node` opened as `kind`.
pub open spec fn readdir_post(v: Seq<InodeView>, node: usize, kind: NodeKind, r: VfsResult<Vec<String>>) -> bool {
    match (kind, v[node as int].data) {
        (NodeKind::Directory, NodeView::Directory(es)) => r matches Ok(names) && strings_view(names@)
            == seq![seq!['.'], seq!['.', '.']] + entry_names(es),
        _ => r is Err && r->Err_0 == VfsError::NotADirectory,
    }
}

impl TmpNode {
    /// The name the node was opened under.
    pub fn name(&self) -> (r: String)
        ensures
            r@ == self.name@,
    {
        self.name.clone()
    }
}

impl TmpFs {
    /// Whether `h` refers to an inode of this filesystem.
    pub open spec fn valid(&self, h: &TmpNode) -> bool {
        h.node < self@.len()
    }

    /// Create the subdirectory `name` in the directory `dir`; it takes the
    /// inode number `next_inode`, which then moves on by one. One counter
    /// numbers the directories of every filesystem.
    pub fn mkdir(&mut self, dir: &TmpNode, name: &str, next_inode: &mut u64) -> (r: VfsResult<()>)
        requires
            old(self).wf(),
            old(self).valid(dir),
        ensures
            final(self).wf(),
            mkdir_post(
                old(self)@,
                final(self)@,
                *old(next_inode),
                *final(next_inode),
                dir.node,
                dir.kind,
                name@,
                r,
            ),
    {
        if dir.kind == NodeKind::File {
            return Err(VfsError::NotADirectory);
        }
        let is_dir = match &self.nodes[dir.node].data {
            NodeData::Directory(_) => true,
            NodeData::File(_) => false,
        };
        if !is_dir {
            return Err(VfsError::NotADirectory);
        }
        if self.find_entry(dir.node, name).is_some() {
            return Err(VfsError::AlreadyExists);
        }
        let pos = self.insert_position(dir.node, name);
        let id = *next_inode;
        *next_inode = id.wrapping_add(1);
        let new_index = self.nodes.len();
        let ghost before = self@;
        self.nodes.push(
            Inode {
                id,
                data: NodeData::Directory(Vec::new()),
                metadata: new_metadata(id, FileType::Directory, 2),
            },
        );
        proof {
            assert(entries_view(Seq::<DirEntry>::empty()) =~= Seq::empty());
            assert(self@ =~= before.push(fresh_directory(id)));
        }
        self.insert_entry(dir.node, pos, DirEntry { name: String::from_str(name), node: new_index });
        Ok(())
    }

    /// Position at which `name` (absent) belongs among the sorted entries of `dir`.
    fn insert_position(&self, dir: usize, name: &str) -> (r: usize)
        requires
            self.wf(),
            dir < self@.len(),
            self@[dir as int].data is Directory,
            dir_lookup(self@[dir as int].data->Directory_0, name@) is None,
        ensures
            r <= self@[dir as int].data->Directory_0.len(),
            forall|i: int| 0 <= i < r ==> lex_less(#[trigger] self@[dir as int].data->Directory_0[i].0, name@),
            forall|i: int|
                r <= i < self@[dir as int].data->Directory_0.len() ==> lex_less(
                    name@,
                    #[trigger] self@[dir as int].data->Directory_0[i].0,
                ),
    {
        let ghost es = self@[dir as int].data->Directory_0;
        proof {
            lemma_dir_lookup(es, name@);
        }
        match &self.nodes[dir].data {
            NodeData::Directory(entries) => {
                assert(entries_view(entries@) == es);
                let mut k: usize = 0;
                while k < entries.len()
                    invariant
                        k <= entries@.len(),
                        entries_view(entries@) == es,
                        es == self@[dir as int].data->Directory_0,
                        sorted_names(es),
                        forall|i: int| 0 <= i < es.len() ==> es[i].0 != name@,
                        forall|i: int| 0 <= i < k ==> lex_less(#[trigger] es[i].0, name@),
                    decreases entries@.len() - k,
                {
                    if str_less(name, entries[k].name.as_str()) {
                        proof {
                            assert forall|i: int| k <= i < es.len() implies lex_less(name@, #[trigger] es[i].0) by {
                                if i > k {
                                    lemma_lex_less_trans(name@, es[k as int].0, es[i].0);
                                }
                            }
                        }
                        return k;
                    }
                    proof {
                        lemma_lex_less_total(name@, es[k as int].0);
                    }
                    k = k + 1;
                }
                k
            },
            NodeData::File(_) => 0,
        }
    }

    /// Insert `entry` at position `pos` of directory `dir`'s entries.
    fn insert_entry(&mut self, dir: usize, pos: usize, entry: DirEntry)
        requires
            old(self).wf(),
            dir < old(self)@.len(),
            entry.node < old(self)@.len(),
            old(self)@[dir as int].data is Directory,
            pos <= old(self)@[dir as int].data->Directory_0.len(),
            forall|i: int| 0 <= i < pos ==> lex_less(#[trigger] old(self)@[dir as int].data->Directory_0[i].0, entry.name@),
            forall|i: int|
                pos <= i < old(self)@[dir as int].data->Directory_0.len() ==> lex_less(
                    entry.name@,
                    #[trigger] old(self)@[dir as int].data->Directory_0[i].0,
                ),
        ensures
            final(self).wf(),
            final(self)@.len() == old(self)@.len(),
            final(self)@[dir as int].id == old(self)@[dir as int].id,
            final(self)@[dir as int].metadata == old(self)@[dir as int].metadata,
            final(self)@[dir as int].data matches NodeView::Directory(es2) && entries_with(
                old(self)@[dir as int].data->Directory_0,
                es2,
                entry.name@,
                entry.node,
            ),
            forall|i: int| 0 <= i < old(self)@.len() && i != dir ==> #[trigger] final(self)@[i] == old(self)@[i],
    {
        let ghost es = old(self)@[dir as int].data->Directory_0;
        let ghost n = entry.name@;
        let ghost v = entry.node;
        let ghost before = self@;
        match &mut self.nodes[dir].data {
            NodeData::Directory(entries) => {
                entries.insert(pos, entry);
            },
            NodeData::File(_) => {},
        }
        proof {
            lemma_sorted_insert(es, pos as int, n, v);
            let es2 = es.insert(pos as int, (n, v));
            assert(self@[dir as int].data->Directory_0 =~= es2);
            assert forall|i: int| 0 <= i < self@.len() implies node_ok(#[trigger] self@[i], self@.len()) by {
                if i != dir {
                    assert(self@[i] == before[i]);
                    assert(node_ok(before[i], before.len()));
                } else {
                    assert forall|k: int| 0 <= k < es2.len() implies #[trigger] es2[k].1 < self@.len() by {
                        if k < pos {
                            assert(es2[k] == es[k]);
                        } else if k > pos {
                            assert(es2[k] == es[k - 1]);
                        }
                    }
                }
            }
        }
    }

    /// Remove the entry `name` from the directory `dir`.
    pub fn unlink(&mut self, dir: &TmpNode, name: &str) -> (r: VfsResult<()>)
        requires
            old(self).wf(),
            old(self).valid(dir),
        ensures
            final(self).wf(),
            unlink_post(old(self)@, final(self)@, dir.node, dir.kind, name@, r),
    {
        if dir.kind == NodeKind::File {
            return Err(VfsError::NotADirectory);
        }
        let is_dir = match &self.nodes[dir.node].data {
            NodeData::Directory(_) => true,
            NodeData::File(_) => false,
        };
        if !is_dir {
            return Err(VfsError::NotADirectory);
        }
        match self.find_entry(dir.node, name) {
            None => Err(VfsError::NotFound),
            Some(k) => {
                let ghost es = self@[dir.node as int].data->Directory_0;
                let ghost before = self@;
                let d = dir.node;
                match &mut self.nodes[d].data {
                    NodeData::Directory(entries) => {
                        entries.remove(k);
                    },
                    NodeData::File(_) => {},
                }
                proof {
                    lemma_sorted_remove(es, k as int);
                    let es2 = es.remove(k as int);
                    assert(self@[d as int].data->Directory_0 =~= es2);
                    assert forall|i: int| 0 <= i < self@.len() implies node_ok(#[trigger] self@[i], self@.len()) by {
                        if i != d {
                            assert(self@[i] == before[i]);
                            assert(node_ok(before[i], before.len()));
                        } else {
                            assert forall|j: int| 0 <= j < es2.len() implies #[trigger] es2[j].1 < self@.len() by {
                                if j < k {
                                    assert(es2[j] == es[j]);
                                } else {
                                    assert(es2[j] == es[j + 1]);
                                }
                            }
                        }
                    }
                }
                Ok(())
            },
        }
    }

    /// Open the entry `name` of the directory `dir`.
    pub fn open_child(&self, dir: &TmpNode, name: &str) -> (r: VfsResult<TmpNode>)
        requires
            self.wf(),
            self.valid(dir),
        ensures
            match (dir.kind, self@[dir.node as int].data) {
                (NodeKind::Directory, NodeView::Directory(es)) => match dir_lookup(es, name@) {
                    Some(child) => r matches Ok(h) && h.node == child && h.name@ == name@
                        && h.kind == kind_of(self@[child as int]) && self.valid(&h),
                    None => r == Err::<TmpNode, VfsError>(VfsError::NotFound),
                },
                _ => r == Err::<TmpNode, VfsError>(VfsError::NotADirectory),
            },
    {
        if dir.kind == NodeKind::File {
            return Err(VfsError::NotADirectory);
        }
        let is_dir = match &self.nodes[dir.node].data {
            NodeData::Directory(_) => true,
            NodeData::File(_) => false,
        };
        if !is_dir {
            return Err(VfsError::NotADirectory);
        }
        match self.find_entry(dir.node, name) {
            None => Err(VfsError::NotFound),
            Some(k) => {
                let child = self.entry_node(dir.node, k);
                proof {
                    assert(node_ok(self@[dir.node as int], self@.len()));
                }
                let kind = self.node_kind(child);
                Ok(TmpNode { node: child, name: String::from_str(name), kind })
            },
        }
    }

    /// The inode named by entry `k` of directory `dir`.
    fn entry_node(&self, dir: usize, k: usize) -> (r: usize)
        requires
            self.wf(),
            dir < self@.len(),
            self@[dir as int].data is Directory,
            k < self@[dir as int].data->Directory_0.len(),
        ensures
            r == self@[dir as int].data->Directory_0[k as int].1,
    {
        match &self.nodes[dir].data {
            NodeData::Directory(entries) => {
                assert(entries_view(entries@)[k as int].1 == entries@[k as int].node);
                entries[k].node
            },
            NodeData::File(_) => 0,
        }
    }

    /// Whether inode `i` is a file or a directory.
    fn node_kind(&self, i: usize) -> (r: NodeKind)
        requires
            i < self@.len(),
        ensures
            r == kind_of(self@[i as int]),
    {
        match &self.nodes[i].data {
            NodeData::Directory(_) => NodeKind::Directory,
            NodeData::File(_) => NodeKind::File,
        }
    }

    /// List a directory: `.`, `..`, then the entries' names in order.
    pub fn readdir(&self, dir: &TmpNode) -> (r: VfsResult<Vec<String>>)
        requires
            self.wf(),
            self.valid(dir),
        ensures
            readdir_post(self@, dir.node, dir.kind, r),
    {
        if dir.kind == NodeKind::File {
            return Err(VfsError::NotADirectory);
        }
        match &self.nodes[dir.node].data {
            NodeData::Directory(entries) => {
                let ghost es = entries_view(entries@);
                let mut names: Vec<String> = Vec::new();
                names.push(String::from_str("."));
                names.push(String::from_str(".."));
                proof {
                    reveal_strlit(".");
                    reveal_strlit("..");
                    assert("."@ =~= seq!['.']);
                    assert(".."@ =~= seq!['.', '.']);
                    assert(strings_view(names@) =~= seq![seq!['.'], seq!['.', '.']] + entry_names(es).subrange(0, 0));
                }
                let mut k: usize = 0;
                while k < entries.len()
                    invariant
                        k <= entries@.len(),
                        es == entries_view(entries@),
                        strings_view(names@) == seq![seq!['.'], seq!['.', '.']] + entry_names(es).subrange(0, k as int),
                    decreases entries@.len() - k,
                {
                    let ghost prev = names@;
                    names.push(entries[k].name.clone());
                    assert(strings_view(names@) =~= strings_view(prev).push(entries@[k as int].name@));
                    assert(entry_names(es).subrange(0, k + 1) =~= entry_names(es).subrange(0, k as int).push(entries@[k as int].name@));
                    k = k + 1;
                }
                assert(entry_names(es).subrange(0, entries@.len() as int) =~= entry_names(es));
                Ok(names)
            },
            NodeData::File(_) => Err(VfsError::NotADirectory),
        }
    }

    /// The metadata of an open node.
    pub fn metadata(&self, h: &TmpNode) -> (r: VfsResult<FileMetadata>)
        requires
            self.valid(h),
        ensures
            r == Ok::<FileMetadata, VfsError>(self@[h.node as int].metadata),
    {
        Ok(self.nodes[h.node].metadata)
    }

    /// Whether an open node is a directory, by its metadata.
    pub fn is_dir(&self, h: &TmpNode) -> (r: bool)
        requires
            self.valid(h),
        ensures
            r == (self@[h.node as int].metadata.file_type == FileType::Directory),
    {
        self.nodes[h.node].metadata.file_type == FileType::Directory
    }

    /// Setting metadata is not supported.
    pub fn set_metadata(&mut self, h: &TmpNode, metadata: &FileMetadata) -> (r: VfsResult<()>)
        ensures
            r == Err::<(), VfsError>(VfsError::IoError),
            final(self)@ == old(self)@,
    {
        Err(VfsError::IoError)
    }

    /// Flushing has nothing to do: everything is in memory.
    pub fn flush(&self, h: &TmpNode) -> (r: VfsResult<()>)
        ensures
            r == Ok::<(), VfsError>(()),
    {
        Ok(())
    }
}

impl TmpFs {
    /// Read from an open file at `offset` into `buf`; returns the number of
    /// bytes read.  Nothing is read at or beyond the recorded size.
    pub fn read_at(&self, h: &TmpNode, buf: &mut [u8], offset: u64) -> (r: VfsResult<usize>)
        requires
            self.valid(h),
            h.kind == NodeKind::File && offset < self@[h.node as int].metadata.size ==> offset
                + old(buf)@.len() <= usize::MAX,
        ensures
            read_at_post(self@, h.node, h.kind, offset, old(buf)@, final(buf)@, r),
    {
        if h.kind == NodeKind::Directory {
            return Err(VfsError::IsADirectory);
        }
        let size = self.nodes[h.node].metadata.size;
        if offset >= size {
            return Ok(0);
        }
        match &self.nodes[h.node].data {
            NodeData::File(data) => {
                let start = offset as usize;
                let want = start + buf.len();
                let end = if want < data.len() {
                    want
                } else {
                    data.len()
                };
                if start < data.len() {
                    let count = end - start;
                    let mut i: usize = 0;
                    while i < count
                        invariant
                            i <= count,
                            count == end - start,
                            start + count <= data@.len(),
                            count <= buf@.len(),
                            buf@.len() == old(buf)@.len(),
                            buf@ == data@.subrange(start as int, start + i) + old(buf)@.subrange(i as int, old(buf)@.len() as int),
                        decreases count - i,
                    {
                        let byte = data[start + i];
                        buf[i] = byte;
                        assert(buf@ =~= data@.subrange(start as int, start + i + 1) + old(buf)@.subrange(i + 1, old(buf)@.len() as int));
                        i = i + 1;
                    }
                    assert forall|j: int| 0 <= j < old(buf)@.len() implies #[trigger] buf@[j] == if j < count {
                        data@[start + j]
                    } else {
                        old(buf)@[j]
                    } by {
                        if j < count {
                            assert(buf@[j] == data@.subrange(start as int, start + count)[j]);
                        } else {
                            assert(buf@[j] == old(buf)@.subrange(count as int, old(buf)@.len() as int)[j - count]);
                        }
                    }
                    Ok(count)
                } else {
                    Ok(0)
                }
            },
            NodeData::Directory(_) => Err(VfsError::NotAFile),
        }
    }

    /// Write `buf` to an open file at `offset`, extending it with zeros when
    /// the offset lies beyond its end; the recorded size becomes the length
    /// of the data.  Returns the number of bytes written.
    pub fn write_at(&mut self, h: &TmpNode, buf: &[u8], offset: u64) -> (r: VfsResult<usize>)
        requires
            old(self).wf(),
            old(self).valid(h),
            h.kind == NodeKind::File ==> offset + buf@.len() <= usize::MAX,
        ensures
            final(self).wf(),
            write_at_post(old(self)@, final(self)@, h.node, h.kind, buf@, offset, r),
    {
        if h.kind == NodeKind::Directory {
            return Err(VfsError::IsADirectory);
        }
        let is_file = match &self.nodes[h.node].data {
            NodeData::File(_) => true,
            NodeData::Directory(_) => false,
        };
        if !is_file {
            return Err(VfsError::NotAFile);
        }
        let ghost before = self@;
        let ghost d = before[h.node as int].data->File_0;
        let idx = h.node;
        let node = &mut self.nodes[idx];
        match &mut node.data {
            NodeData::File(data) => {
                let off = offset as usize;
                let end = off + buf.len();
                let ghost d0 = data@;
                while data.len() < end
                    invariant
                        end == off + buf@.len(),
                        data@.len() <= end || data@ == d0,
                        data@.subrange(0, d0.len() as int) == d0,
                        forall|i: int| d0.len() <= i < data@.len() ==> #[trigger] data@[i] == 0u8,
                        data@.len() >= d0.len(),
                    decreases end - data@.len(),
                {
                    data.push(0u8);
                }
                let ghost padded = data@;
                let mut i: usize = 0;
                while i < buf.len()
                    invariant
                        i <= buf@.len(),
                        end == off + buf@.len(),
                        data@.len() == padded.len(),
                        padded.len() >= end,
                        forall|j: int| 0 <= j < data@.len() ==> #[trigger] data@[j] == if off <= j < off + i {
                            buf@[j - off]
                        } else {
                            padded[j]
                        },
                    decreases buf@.len() - i,
                {
                    data.set(off + i, buf[i]);
                    i = i + 1;
                }
                proof {
                    assert(data@ =~= written(d0, buf@, off as int)) by {
                        assert forall|j: int| 0 <= j < data@.len() implies data@[j] == written(d0, buf@, off as int)[j] by {
                            if j < d0.len() && !(off <= j < off + buf@.len()) {
                                assert(padded[j] == padded.subrange(0, d0.len() as int)[j]);
                            }
                        }
                    }
                }
                node.metadata.size = data.len() as u64;
            },
            NodeData::Directory(_) => {},
        }
        proof {
            assert forall|i: int| 0 <= i < self@.len() implies node_ok(#[trigger] self@[i], self@.len()) by {
                if i != idx {
                    assert(self@[i] == before[i]);
                    assert(node_ok(before[i], before.len()));
                }
            }
        }
        Ok(buf.len())
    }

    /// Truncate an open file: its data is cut to `size` bytes (never
    /// extended) and its recorded size becomes `size`.
    pub fn truncate(&mut self, h: &TmpNode, size: u64) -> (r: VfsResult<()>)
        requires
            old(self).wf(),
            old(self).valid(h),
        ensures
            final(self).wf(),
            final(self)@.len() == old(self)@.len(),
            forall|i: int| 0 <= i < old(self)@.len() && i != h.node ==> #[trigger] final(self)@[i] == old(self)@[i],
            match (h.kind, old(self)@[h.node as int].data) {
                (NodeKind::Directory, _) => r == Err::<(), VfsError>(VfsError::IoError)
                    && final(self)@ == old(self)@,
                (NodeKind::File, NodeView::File(d)) => {
                    &&& r == Ok::<(), VfsError>(())
                    &&& final(self)@[h.node as int] == (InodeView {
                        id: old(self)@[h.node as int].id,
                        data: NodeView::File(truncated(d, size as usize)),
                        metadata: FileMetadata { size, ..old(self)@[h.node as int].metadata },
                    })
                },
                (NodeKind::File, NodeView::Directory(_)) => r == Err::<(), VfsError>(VfsError::NotAFile)
                    && final(self)@ == old(self)@,
            },
    {
        if h.kind == NodeKind::Directory {
            return Err(VfsError::IoError);
        }
        let is_file = match &self.nodes[h.node].data {
            NodeData::File(_) => true,
            NodeData::Directory(_) => false,
        };
        if !is_file {
            return Err(VfsError::NotAFile);
        }
        let ghost before = self@;
        let idx = h.node;
        let node = &mut self.nodes[idx];
        match &mut node.data {
            NodeData::File(data) => {
                let ghost d0 = data@;
                data.truncate(size as usize);
                assert(data@ =~= truncated(d0, size as usize));
                node.metadata.size = size;
            },
            NodeData::Directory(_) => {},
        }
        proof {
            assert forall|i: int| 0 <= i < self@.len() implies node_ok(#[trigger] self@[i], self@.len()) by {
                if i != idx {
                    assert(self@[i] == before[i]);
                    assert(node_ok(before[i], before.len()));
                }
            }
        }
        Ok(())
    }
}

/// `p` without its leading and trailing `/` (`str::trim_matches('/')`).
pub open spec fn trim_slashes(p: Seq<char>) -> Seq<char> {
    trim_end_slashes(trim_start_slashes(p))
}

/// The directory reached from inode `cur` through the components `comps`
/// (empty components are skipped).
pub open spec fn walk(v: Seq<InodeView>, cur: usize, comps: Seq<Seq<char>>) -> VfsResult<usize>
    decreases comps.len(),
{
    if comps.len() == 0 {
        Ok(cur)
    } else if comps[0].len() == 0 {
        walk(v, cur, comps.drop_first())
    } else {
        match v[cur as int].data {
            NodeView::Directory(es) => match dir_lookup(es, comps[0]) {
                Some(c) => walk(v, c, comps.drop_first()),
                None => Err(VfsError::NotFound),
            },
            NodeView::File(_) => Err(VfsError::NotADirectory),
        }
    }
}

/// The entry `name` of the directory inode `dir`, with its name.
pub open spec fn child_spec(v: Seq<InodeView>, dir: usize, name: Seq<char>) -> VfsResult<(usize, Seq<char>)> {
    match v[dir as int].data {
        NodeView::Directory(es) => match dir_lookup(es, name) {
            Some(c) => Ok((c, name)),
            None => Err(VfsError::NotFound),
        },
        NodeView::File(_) => Err(VfsError::NotADirectory),
    }
}

/// What opening the components `comps` from inode `cur` gives: the parent
/// components are walked, then the last one is looked up.
pub open spec fn open_from(v: Seq<InodeView>, cur: usize, comps: Seq<Seq<char>>) -> VfsResult<(usize, Seq<char>)> {
    match walk(v, cur, comps.drop_last()) {
        Ok(d) => child_spec(v, d, comps.last()),
        Err(e) => Err(e),
    }
}

/// What opening `path` gives: the inode reached and the name of the handle.
/// An empty path (after trimming `/`) opens the root, named `/`.
pub open spec fn open_spec(v: Seq<InodeView>, path: Seq<char>) -> VfsResult<(usize, Seq<char>)> {
    let t = trim_slashes(path);
    if t.len() == 0 {
        Ok((0usize, seq!['/']))
    } else {
        open_from(v, 0, split_slash(t))
    }
}

proof fn lemma_split_acc_nonempty(s: Seq<char>, cur: Seq<char>)
    ensures
        split_acc(s, cur).len() >= 1,
    decreases s.len(),
{
    if s.len() > 0 {
        if s[0] == '/' {
            lemma_split_acc_nonempty(s.drop_first(), Seq::empty());
        } else {
            lemma_split_acc_nonempty(s.drop_first(), cur.push(s[0]));
        }
    }
}

proof fn lemma_open_from_cons(v: Seq<InodeView>, cur: usize, c: Seq<char>, rest: Seq<Seq<char>>)
    requires
        rest.len() >= 1,
    ensures
        open_from(v, cur, seq![c] + rest) == if c.len() == 0 {
            open_from(v, cur, rest)
        } else {
            match v[cur as int].data {
                NodeView::Directory(es) => match dir_lookup(es, c) {
                    Some(k) => open_from(v, k, rest),
                    None => Err(VfsError::NotFound),
                },
                NodeView::File(_) => Err(VfsError::NotADirectory),
            }
        },
{
    let l = seq![c] + rest;
    assert(l.drop_last() =~= seq![c] + rest.drop_last());
    assert(l.last() == rest.last());
    let d = l.drop_last();
    assert(d[0] == c);
    assert(d.drop_first() =~= rest.drop_last());
}

impl TmpFs {
    /// Open the file or directory at `path`.
    pub fn open(&self, path: &str) -> (r: VfsResult<TmpNode>)
        requires
            self.wf(),
        ensures
            match open_spec(self@, path@) {
                Ok((node, name)) => r matches Ok(h) && h.node == node && h.name@ == name
                    && self.valid(&h) && h.kind == kind_of(self@[node as int]),
                Err(e) => r matches Err(e2) && e2 == e,
            },
    {
        let s0 = trimmed_start_len(path);
        let n0 = path.unicode_len();
        let rest = path.substring_char(s0, n0);
        let e0 = trimmed_end_len(rest);
        let t = rest.substring_char(0, e0);
        assert(t@ == trim_slashes(path@));
        let n = t.unicode_len();
        if n == 0 {
            proof {
                reveal_strlit("/");
                assert("/"@ =~= seq!['/']);
            }
            return Ok(TmpNode { node: 0, name: String::from_str("/"), kind: NodeKind::Directory });
        }
        let mut cur: usize = 0;
        let mut start: usize = 0;
        let mut i: usize = 0;
        assert(t@.subrange(0, n as int) =~= t@);
        assert(t@.subrange(0, 0) =~= Seq::<char>::empty());
        while i < n
            invariant
                self.wf(),
                n == t@.len(),
                n > 0,
                start <= i <= n,
                cur < self@.len(),
                open_spec(self@, path@) == open_from(
                    self@,
                    cur,
                    split_acc(t@.subrange(i as int, n as int), t@.subrange(start as int, i as int)),
                ),
                trim_slashes(path@) == t@,
            decreases n - i,
        {
            let ch = t.get_char(i);
            let ghost rest_s = t@.subrange(i as int, n as int);
            let ghost c = t@.subrange(start as int, i as int);
            assert(rest_s.drop_first() =~= t@.subrange(i + 1, n as int));
            if ch == '/' {
                proof {
                    lemma_split_acc_nonempty(t@.subrange(i + 1, n as int), Seq::empty());
                    lemma_open_from_cons(self@, cur, c, split_acc(t@.subrange(i + 1, n as int), Seq::empty()));
                }
                let comp = t.substring_char(start, i);
                if i > start {
                    let is_dir = match &self.nodes[cur].data {
                        NodeData::Directory(_) => true,
                        NodeData::File(_) => false,
                    };
                    if !is_dir {
                        return Err(VfsError::NotADirectory);
                    }
                    match self.find_entry(cur, comp) {
                        None => {
                            return Err(VfsError::NotFound);
                        },
                        Some(k) => {
                            proof {
                                assert(node_ok(self@[cur as int], self@.len()));
                            }
                            cur = self.entry_node(cur, k);
                        },
                    }
                }
                start = i + 1;
                assert(t@.subrange(start as int, i + 1) =~= Seq::<char>::empty());
            } else {
                assert(c.push(ch) =~= t@.subrange(start as int, i + 1));
            }
            i = i + 1;
        }
        let name = t.substring_char(start, n);
        proof {
            let c = t@.subrange(start as int, n as int);
            assert(t@.subrange(n as int, n as int) =~= Seq::<char>::empty());
            assert(split_acc(Seq::<char>::empty(), c) == seq![c]);
            assert(seq![c].drop_last() =~= Seq::<Seq<char>>::empty());
        }
        let is_dir = match &self.nodes[cur].data {
            NodeData::Directory(_) => true,
            NodeData::File(_) => false,
        };
        if !is_dir {
            return Err(VfsError::NotADirectory);
        }
        match self.find_entry(cur, name) {
            None => Err(VfsError::NotFound),
            Some(k) => {
                proof {
                    assert(node_ok(self@[cur as int], self@.len()));
                }
                let child = self.entry_node(cur, k);
                let kind = self.node_kind(child);
                Ok(TmpNode { node: child, name: String::from_str(name), kind })
            },
        }
    }

    /// Filesystem statistics (fixed: a 4 GiB virtual filesystem).
    pub fn statfs(&self) -> (r: VfsResult<FsStats>)
        ensures
            r matches Ok(st) && st.block_size == 4096 && st.total_blocks == 1048576
                && st.free_blocks == 1048576 && st.total_inodes == 1000000 && st.free_inodes
                == 1000000 && st.fs_type@ == "tmpfs"@,
    {
        Ok(
            FsStats {
                block_size: 4096,
                total_blocks: 1024 * 1024,
                free_blocks: 1024 * 1024,
                total_inodes: 1000000,
                free_inodes: 1000000,
                fs_type: "tmpfs",
            },
        )
    }

    /// Sync pending writes: nothing to do, everything is in memory.
    pub fn sync(&self) -> (r: VfsResult<()>)
        ensures
            r == Ok::<(), VfsError>(()),
    {
        Ok(())
    }

    /// The filesystem type name.
    pub fn fs_type(&self) -> (r: &'static str)
        ensures
            r@ == "tmpfs"@,
    {
        "tmpfs"
    }
}

impl Filesystem for TmpFs {
    open spec fn fs_wf(&self) -> bool {
        self.wf()
    }

    fn open(&self, path: &str) -> (r: VfsResult<TmpNode>)
        ensures
            match open_spec(self@, path@) {
                Ok((node, name)) => r matches Ok(h) && h.node == node && h.name@ == name
                    && self.valid(&h) && h.kind == kind_of(self@[node as int]),
                Err(e) => r matches Err(e2) && e2 == e,
            },
    {
        TmpFs::open(self, path)
    }

    fn statfs(&self) -> (r: VfsResult<FsStats>)
        ensures
            r matches Ok(st) && st.block_size == 4096 && st.total_blocks == 1048576
                && st.free_blocks == 1048576 && st.total_inodes == 1000000 && st.free_inodes
                == 1000000 && st.fs_type@ == "tmpfs"@,
    {
        TmpFs::statfs(self)
    }

    fn sync(&self) -> (r: VfsResult<()>)
        ensures
            r == Ok::<(), VfsError>(()),
    {
        TmpFs::sync(self)
    }

    fn fs_type(&self) -> (r: &'static str)
        ensures
            r@ == "tmpfs"@,
    {
        TmpFs::fs_type(self)
    }
}

/// Whether an inode is a file or a directory.
pub open spec fn kind_of(n: InodeView) -> NodeKind {
    match n.data {
        NodeView::File(_) => NodeKind::File,
        NodeView::Directory(_) => NodeKind::Directory,
    }
}

/// Metadata of a fresh inode.
fn new_metadata(id: u64, file_type: FileType, link_count: u32) -> (r: FileMetadata)
    ensures
        r == fresh_metadata(id, file_type, link_count),
{
    FileMetadata {
        file_type,
        size: 0,
        permissions: Permissions::new(),
        inode: id,
        created_at: 0,
        modified_at: 0,
        accessed_at: 0,
        uid: 0,
        gid: 0,
        link_count,
    }
}

/// A directory just created is found under its name, and every other name
/// finds what it found before.
pub proof fn lemma_mkdir_then_lookup(
    es: Seq<(Seq<char>, usize)>,
    es2: Seq<(Seq<char>, usize)>,
    name: Seq<char>,
    v: usize,
    other: Seq<char>,
)
    requires
        entries_with(es, es2, name, v),
    ensures
        dir_lookup(es2, name) == Some(v),
        other != name ==> dir_lookup(es2, other) == dir_lookup(es, other),
{
    assert(dir_lookup(es2, name) == Some(v));
    assert(dir_lookup(es2, other) == if other == name {
        Some(v)
    } else {
        dir_lookup(es, other)
    });
}

/// A directory just created is listed by `readdir` of its parent: `es2` is
/// what `mkdir` makes of the entries `es`.
pub proof fn lemma_mkdir_then_readdir(es: Seq<(Seq<char>, usize)>, es2: Seq<(Seq<char>, usize)>, name: Seq<char>, v: usize)
    requires
        entries_with(es, es2, name, v),
    ensures
        entry_names(es2).contains(name),
{
    lemma_dir_lookup(es2, name);
    assert(dir_lookup(es2, name) == Some(v));
    let i = choose|i: int| 0 <= i < es2.len() && es2[i].0 == name && es2[i].1 == v;
    assert(entry_names(es2)[i] == name);
}

/// A name just unlinked is not listed by `readdir` of its directory: `es2`
/// is what `unlink` makes of the entries `es`.
pub proof fn lemma_unlink_then_readdir(es: Seq<(Seq<char>, usize)>, es2: Seq<(Seq<char>, usize)>, name: Seq<char>)
    requires
        entries_without(es, es2, name),
    ensures
        !entry_names(es2).contains(name),
{
    lemma_dir_lookup(es2, name);
    assert(dir_lookup(es2, name) is None);
    if entry_names(es2).contains(name) {
        let i = choose|i: int| 0 <= i < entry_names(es2).len() && entry_names(es2)[i] == name;
        assert(es2[i].0 == name);
    }
}

/// A name just unlinked is no longer found, and every other name finds what
/// it found before.
pub proof fn lemma_unlink_then_lookup(
    es: Seq<(Seq<char>, usize)>,
    es2: Seq<(Seq<char>, usize)>,
    name: Seq<char>,
    other: Seq<char>,
)
    requires
        entries_without(es, es2, name),
    ensures
        dir_lookup(es2, name) is None,
        other != name ==> dir_lookup(es2, other) == dir_lookup(es, other),
{
    assert(dir_lookup(es2, name) is None);
    assert(dir_lookup(es2, other) == if other == name {
        None
    } else {
        dir_lookup(es, other)
    });
}

/// Reading back at the offset of a write returns exactly the bytes written
/// (the recorded size being the new length of the file).
pub proof fn lemma_write_then_read(d: Seq<u8>, buf: Seq<u8>, off: u64)
    requires
        buf.len() > 0,
        off + buf.len() <= u64::MAX,
        d.len() <= u64::MAX,
    ensures
        ({
            let nd = written(d, buf, off as int);
            &&& read_count(nd, nd.len() as u64, off, buf.len() as int) == buf.len()
            &&& forall|i: int| 0 <= i < buf.len() ==> #[trigger] nd[off + i] == buf[i]
        }),
{
    let nd = written(d, buf, off as int);
    assert(nd.len() >= off + buf.len());
    assert(nd.len() <= u64::MAX);
    assert((nd.len() as u64) as int == nd.len());
    assert forall|i: int| 0 <= i < buf.len() implies #[trigger] nd[off + i] == buf[i] by {
        assert(off <= off + i < off + buf.len());
    }
}

/// A directory lists its entries in strictly increasing name order (each
/// name once): in a well-formed filesystem, the names that `readdir` gives
/// after `.` and `..` are sorted.
pub proof fn lemma_readdir_sorted(fs: TmpFs, dir: usize)
    requires
        fs.wf(),
        dir < fs@.len(),
        fs@[dir as int].data is Directory,
    ensures
        ({
            let names = entry_names(fs@[dir as int].data->Directory_0);
            forall|i: int, j: int| 0 <= i < j < names.len() ==> lex_less(#[trigger] names[i], #[trigger] names[j])
        }),
{
    let es = fs@[dir as int].data->Directory_0;
    assert(node_ok(fs@[dir as int], fs@.len()));
    let names = entry_names(es);
    assert forall|i: int, j: int| 0 <= i < j < names.len() implies lex_less(#[trigger] names[i], #[trigger] names[j]) by {
        assert(names[i] == es[i].0);
        assert(names[j] == es[j].0);
    }
}

} // verus!
