//! The object-store backend's node mapping: what a bucket listing means
//! as filesystem entries.  The wire side — issuing the list-objects
//! request, the head request, the ranged get — is input/output and lives
//! in the shell; what comes back is mapped to nodes here, exactly.

use vstd::prelude::*;
use crate::node::{FileAttr, FileType, Node, NodeView};
use crate::stat::Stat;

verus! {

/// The attribute block of an object-store directory entry: a common
/// prefix of the listing, shown with mode 0755 and synthetic times.
pub open spec fn s3_dir_attr(uid: u32, gid: u32) -> FileAttr {
    FileAttr {
        ino: 0,
        size: 4096,
        blocks: 0,
        atime: 0,
        mtime: 0,
        ctime: 0,
        crtime: 0,
        kind: FileType::Directory,
        perm: 0o755,
        nlink: 2,
        uid,
        gid,
        rdev: 0,
        flags: 0,
    }
}

/// The attribute block of an object-store file entry: an object of the
/// listing, sized from its metadata, shown with mode 0644.
pub open spec fn s3_file_attr(size: u64) -> FileAttr {
    FileAttr {
        ino: 0,
        size,
        blocks: 0,
        atime: 0,
        mtime: 0,
        ctime: 0,
        crtime: 0,
        kind: FileType::RegularFile,
        perm: 0o644,
        nlink: 2,
        uid: 0,
        gid: 0,
        rdev: 0,
        flags: 0,
    }
}

/// The root node of a bucket: inode one under the empty path, a
/// directory with mode 0755 and synthetic times, owned by the serving
/// process.
pub fn s3_root_node(uid: u32, gid: u32) -> (r: Node)
    ensures
        r@ == (NodeView {
            inode: 1,
            parent: 1,
            path: Seq::<u8>::empty(),
            attr: FileAttr {
                ino: 1,
                size: 4096,
                blocks: 1,
                atime: 0,
                mtime: 0,
                ctime: 0,
                crtime: 0,
                kind: FileType::Directory,
                perm: 0o755,
                nlink: 2,
                uid,
                gid,
                rdev: 0,
                flags: 0,
            },
        }),
{
    Node::new(
        1,
        1,
        Vec::new(),
        FileAttr {
            ino: 1,
            size: 4096,
            blocks: 1,
            atime: 0,
            mtime: 0,
            ctime: 0,
            crtime: 0,
            kind: FileType::Directory,
            perm: 0o755,
            nlink: 2,
            uid,
            gid,
            rdev: 0,
            flags: 0,
        },
    )
}

/// Maps one bucket listing to nodes: the common prefixes become
/// directories, then the objects become regular files sized from their
/// metadata, in listing order — directories first, then files.
pub fn s3_children(prefixes: Vec<Vec<u8>>, objects: Vec<(Vec<u8>, u64)>, uid: u32, gid: u32) -> (r:
    Vec<Node>)
    requires
        prefixes@.len() + objects@.len() <= usize::MAX,
    ensures
        r@.len() == prefixes@.len() + objects@.len(),
        forall|k: int|
            0 <= k < prefixes@.len() ==> (#[trigger] r@[k])@ == (NodeView {
                inode: 0,
                parent: 0,
                path: prefixes@[k]@,
                attr: s3_dir_attr(uid, gid),
            }),
        forall|k: int|
            0 <= k < objects@.len() ==> (#[trigger] r@[prefixes@.len() + k])@ == (NodeView {
                inode: 0,
                parent: 0,
                path: objects@[k].0@,
                attr: s3_file_attr(objects@[k].1),
            }),
{
    let mut r: Vec<Node> = Vec::new();
    let mut prefixes = prefixes;
    let mut objects = objects;
    let ghost ps = prefixes@;
    let ghost os = objects@;
    let mut i: usize = 0;
    while i < prefixes.len()
        invariant
            prefixes@ == ps,
            i <= ps.len(),
            r@.len() == i,
            forall|k: int|
                0 <= k < i ==> (#[trigger] r@[k])@ == (NodeView {
                    inode: 0,
                    parent: 0,
                    path: ps[k]@,
                    attr: s3_dir_attr(uid, gid),
                }),
        decreases ps.len() - i,
    {
        let path = crate::bytes::clone_bytes(&prefixes[i]);
        r.push(Node::new(0, 0, path, s3_dir_attr_exec(uid, gid)));
        i = i + 1;
    }
    let mut j: usize = 0;
    while j < objects.len()
        invariant
            prefixes@ == ps,
            objects@ == os,
            j <= os.len(),
            ps.len() + os.len() <= usize::MAX,
            r@.len() == ps.len() + j,
            forall|k: int|
                0 <= k < ps.len() ==> (#[trigger] r@[k])@ == (NodeView {
                    inode: 0,
                    parent: 0,
                    path: ps[k]@,
                    attr: s3_dir_attr(uid, gid),
                }),
            forall|k: int|
                0 <= k < j ==> (#[trigger] r@[ps.len() + k])@ == (NodeView {
                    inode: 0,
                    parent: 0,
                    path: os[k].0@,
                    attr: s3_file_attr(os[k].1),
                }),
        decreases os.len() - j,
    {
        let path = crate::bytes::clone_bytes(&objects[j].0);
        let size = objects[j].1;
        r.push(Node::new(0, 0, path, s3_file_attr_exec(size)));
        j = j + 1;
    }
    r
}

/// Builds the directory-entry attribute block.
fn s3_dir_attr_exec(uid: u32, gid: u32) -> (r: FileAttr)
    ensures
        r == s3_dir_attr(uid, gid),
{
    FileAttr {
        ino: 0,
        size: 4096,
        blocks: 0,
        atime: 0,
        mtime: 0,
        ctime: 0,
        crtime: 0,
        kind: FileType::Directory,
        perm: 0o755,
        nlink: 2,
        uid,
        gid,
        rdev: 0,
        flags: 0,
    }
}

/// Builds the file-entry attribute block.
fn s3_file_attr_exec(size: u64) -> (r: FileAttr)
    ensures
        r == s3_file_attr(size),
{
    FileAttr {
        ino: 0,
        size,
        blocks: 0,
        atime: 0,
        mtime: 0,
        ctime: 0,
        crtime: 0,
        kind: FileType::RegularFile,
        perm: 0o644,
        nlink: 2,
        uid: 0,
        gid: 0,
        rdev: 0,
        flags: 0,
    }
}

/// The fixed, opaque statistics the object-store backend reports.
pub fn s3_stat() -> (r: Stat)
    ensures
        r == (Stat {
            blocks: 1,
            blocks_free: 1,
            blocks_available: 1,
            files: 1,
            files_free: 1,
            block_size: 1,
            namelen: 65535,
            frsize: 1,
        }),
{
    Stat {
        blocks: 1,
        blocks_free: 1,
        blocks_available: 1,
        files: 1,
        files_free: 1,
        block_size: 1,
        namelen: 65535,
        frsize: 1,
    }
}

} // verus!
