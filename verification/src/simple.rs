//! The local-directory backend's node mapping: what the operating
//! system's metadata for a directory entry means as a filesystem node.
//! Enumerating the directory, reading metadata and opening files is the
//! shell's business; the mapping to a node is here.

use vstd::prelude::*;
use crate::node::{FileAttr, FileType, Node, NodeView};

verus! {

/// Maps one directory entry's metadata to an unassigned node: the kind
/// follows the directory bit, the permission bits are the low bits of
/// the mode, and the remaining fields are carried over as reported.
pub fn node_from_metadata(
    path: Vec<u8>,
    size: u64,
    blocks: u64,
    atime: u64,
    mtime: u64,
    ctime: u64,
    crtime: u64,
    is_dir: bool,
    mode: u32,
    nlink: u32,
    uid: u32,
    gid: u32,
    rdev: u32,
) -> (r: Node)
    ensures
        r@ == (NodeView {
            inode: 0,
            parent: 0,
            path: path@,
            attr: FileAttr {
                ino: 0,
                size,
                blocks,
                atime,
                mtime,
                ctime,
                crtime,
                kind: if is_dir {
                    FileType::Directory
                } else {
                    FileType::RegularFile
                },
                perm: mode as u16,
                nlink,
                uid,
                gid,
                rdev,
                flags: 0,
            },
        }),
{
    Node::new(
        0,
        0,
        path,
        FileAttr {
            ino: 0,
            size,
            blocks,
            atime,
            mtime,
            ctime,
            crtime,
            kind: if is_dir {
                FileType::Directory
            } else {
                FileType::RegularFile
            },
            perm: mode as u16,
            nlink,
            uid,
            gid,
            rdev,
            flags: 0,
        },
    )
}

/// Maps the metadata of the directory a local backend is rooted at to
/// the root node: always a directory, with the well-known inode one and
/// the conventional size of one block.
pub fn root_from_metadata(
    path: Vec<u8>,
    blocks: u64,
    atime: u64,
    mtime: u64,
    ctime: u64,
    crtime: u64,
    mode: u32,
    uid: u32,
    gid: u32,
    rdev: u32,
) -> (r: Node)
    ensures
        r@ == (NodeView {
            inode: 1,
            parent: 1,
            path: path@,
            attr: FileAttr {
                ino: 1,
                size: 4096,
                blocks,
                atime,
                mtime,
                ctime,
                crtime,
                kind: FileType::Directory,
                perm: mode as u16,
                nlink: 2,
                uid,
                gid,
                rdev,
                flags: 0,
            },
        }),
{
    Node::new(
        1,
        1,
        path,
        FileAttr {
            ino: 1,
            size: 4096,
            blocks,
            atime,
            mtime,
            ctime,
            crtime,
            kind: FileType::Directory,
            perm: mode as u16,
            nlink: 2,
            uid,
            gid,
            rdev,
            flags: 0,
        },
    )
}

} // verus!
