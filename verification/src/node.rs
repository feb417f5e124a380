//! The record kept for one filesystem entity: its inode number, the inode of
//! its parent, the path under which the owning backend knows it, and its
//! attribute block.

use vstd::prelude::*;

verus! {

/// The kind of a filesystem entity.
#[derive(Clone, Copy, Debug, PartialEq, Eq, Structural)]
pub enum FileType {
    Directory,
    RegularFile,
    Symlink,
    BlockDevice,
    CharDevice,
    NamedPipe,
    Socket,
}

/// The attribute block of a node.  Timestamps are seconds since the epoch.
#[derive(Clone, Copy, Debug, PartialEq, Eq, Structural)]
pub struct FileAttr {
    pub ino: u64,
    pub size: u64,
    pub blocks: u64,
    pub atime: u64,
    pub mtime: u64,
    pub ctime: u64,
    pub crtime: u64,
    pub kind: FileType,
    pub perm: u16,
    pub nlink: u32,
    pub uid: u32,
    pub gid: u32,
    pub rdev: u32,
    pub flags: u32,
}

/// The mathematical image of a node: the same fields with the path as a
/// byte sequence.
pub struct NodeView {
    pub inode: u64,
    pub parent: u64,
    pub path: Seq<u8>,
    pub attr: FileAttr,
}

/// The plain record behind a `Node`.  An inode number of zero means that the
/// manager has not assigned one yet.
#[derive(Debug)]
pub struct InnerNode {
    pub inode: u64,
    pub parent: u64,
    pub path: Vec<u8>,
    pub attr: FileAttr,
}

impl View for InnerNode {
    type V = NodeView;

    open spec fn view(&self) -> NodeView {
        NodeView { inode: self.inode, parent: self.parent, path: self.path@, attr: self.attr }
    }
}

impl InnerNode {
    /// Builds the record, forcing the attribute block's inode field to agree
    /// with the given inode number.
    pub fn new(inode: u64, parent: u64, path: Vec<u8>, attr: FileAttr) -> (r: InnerNode)
        ensures
            r@ == (NodeView {
                inode,
                parent,
                path: path@,
                attr: FileAttr { ino: inode, ..attr },
            }),
    {
        InnerNode { inode, parent, path, attr: FileAttr { ino: inode, ..attr } }
    }
}

/// A node of the filesystem.  It owns an `InnerNode`; the record is copied
/// when the node is handed out, so every reader sees a consistent snapshot.
#[derive(Debug)]
pub struct Node {
    pub inner: InnerNode,
}

impl View for Node {
    type V = NodeView;

    open spec fn view(&self) -> NodeView {
        self.inner@
    }
}

impl Clone for Node {
    fn clone(&self) -> (r: Self)
        ensures
            r@ == self@,
    {
        let path = crate::bytes::clone_bytes(&self.inner.path);
        Node {
            inner: InnerNode {
                inode: self.inner.inode,
                parent: self.inner.parent,
                path,
                attr: self.inner.attr,
            },
        }
    }
}

impl Node {
    /// Builds a node; the attribute block's inode field is forced to agree
    /// with the given inode number.
    pub fn new(inode: u64, parent: u64, path: Vec<u8>, attr: FileAttr) -> (r: Node)
        ensures
            r@ == (NodeView {
                inode,
                parent,
                path: path@,
                attr: FileAttr { ino: inode, ..attr },
            }),
    {
        Node { inner: InnerNode::new(inode, parent, path, attr) }
    }

    pub fn inode(&self) -> (r: u64)
        ensures
            r == self@.inode,
    {
        self.inner.inode
    }

    pub fn parent(&self) -> (r: u64)
        ensures
            r == self@.parent,
    {
        self.inner.parent
    }

    /// A copy of the path under which the owning backend knows this node.
    pub fn path(&self) -> (r: Vec<u8>)
        ensures
            r@ == self@.path,
    {
        crate::bytes::clone_bytes(&self.inner.path)
    }

    /// The path without copying it.
    pub fn path_ref(&self) -> (r: &Vec<u8>)
        ensures
            r@ == self@.path,
    {
        &self.inner.path
    }

    pub fn attr(&self) -> (r: FileAttr)
        ensures
            r == self@.attr,
    {
        self.inner.attr
    }

    /// Assigns the inode and parent numbers; the attribute block's inode
    /// field follows.  Called once, when the manager inserts the node.
    pub fn set_inode(&mut self, inode: u64, parent: u64)
        ensures
            final(self)@ == (NodeView {
                inode,
                parent,
                path: old(self)@.path,
                attr: FileAttr { ino: inode, ..old(self)@.attr },
            }),
    {
        self.inner.inode = inode;
        self.inner.parent = parent;
        self.inner.attr.ino = inode;
    }
}

impl Default for InnerNode {
    /// The all-zero record: no inode, no parent, an empty path, and an
    /// attribute block of a regular file with every numeric field zero.
    fn default() -> (r: InnerNode)
        ensures
            r@ == (NodeView {
                inode: 0,
                parent: 0,
                path: Seq::<u8>::empty(),
                attr: FileAttr {
                    ino: 0,
                    size: 0,
                    blocks: 0,
                    atime: 0,
                    mtime: 0,
                    ctime: 0,
                    crtime: 0,
                    kind: FileType::RegularFile,
                    perm: 0,
                    nlink: 0,
                    uid: 0,
                    gid: 0,
                    rdev: 0,
                    flags: 0,
                },
            }),
    {
        InnerNode {
            inode: 0,
            parent: 0,
            path: Vec::new(),
            attr: FileAttr {
                ino: 0,
                size: 0,
                blocks: 0,
                atime: 0,
                mtime: 0,
                ctime: 0,
                crtime: 0,
                kind: FileType::RegularFile,
                perm: 0,
                nlink: 0,
                uid: 0,
                gid: 0,
                rdev: 0,
                flags: 0,
            },
        }
    }
}

} // verus!
