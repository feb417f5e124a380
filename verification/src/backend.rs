//! The contract every storage backend must satisfy, and the read-clamp
//! rule that the reference backends share.
//!
//! A backend reveals a root node, lists the children of a directory path,
//! fetches a single node by path, reads a byte range, creates a node, and
//! reports filesystem statistics.  The facade relies on exactly what the
//! contracts below state: nodes handed out by a backend carry no inode
//! numbers (the manager assigns them), a fetched node carries the path it
//! was asked for, and a read never returns more bytes than were requested.

use vstd::prelude::*;
use crate::error::Error;
use crate::node::{FileType, Node, NodeView};
use crate::stat::Stat;

verus! {

/// A node as backends hand them out: no inode number, no parent, and an
/// attribute block whose inode field is zero as well.
pub open spec fn unassigned(n: NodeView) -> bool {
    &&& n.inode == 0
    &&& n.parent == 0
    &&& n.attr.ino == 0
}

/// The capability set of a storage backend.
pub trait Backend: Sized {
    /// The root of the backend, which takes the well-known inode one and
    /// is its own parent.
    fn root(&self) -> (r: Node)
        ensures
            r@.inode == 1,
            r@.parent == 1,
            r@.attr.ino == 1,
    ;

    /// The entries of the directory `path`.  Each returned node carries
    /// the full path under which the backend will accept later calls, and
    /// no inode numbers.
    fn get_children(&self, path: &Vec<u8>) -> (r: Result<Vec<Node>, Error>)
        ensures
            r matches Ok(list) ==> forall|k: int|
                0 <= k < list@.len() ==> unassigned((#[trigger] list@[k])@),
    ;

    /// The single node at `path`, with no inode numbers and with `path`
    /// itself recorded as its path.
    fn get_node(&self, path: &Vec<u8>) -> (r: Result<Node, Error>)
        ensures
            r matches Ok(n) ==> unassigned(n@) && n@.path == path@,
    ;

    /// The statistics of the filesystem holding `path`.  The only
    /// failure a backend may report here is that it could not be
    /// reached.
    fn statfs(&self, path: &Vec<u8>) -> (r: Result<Stat, Error>)
        ensures
            r matches Err(e) ==> e == Error::BackendUnavailable,
    ;

    /// Creates the node at `path` with the given kind and permission
    /// bits.
    fn mknod(&mut self, path: &Vec<u8>, filetype: FileType, mode: u32) -> Result<(), Error>;

    /// At most `size` bytes starting at byte `offset` of the file at
    /// `path`; empty exactly at end of file, an error past it.
    fn read(&self, path: &Vec<u8>, offset: u64, size: usize) -> (r: Result<Vec<u8>, Error>)
        ensures
            r matches Ok(data) ==> data@.len() <= size,
    ;
}

/// The clamp rule of the backend contract, shared by the reference
/// backends: reading at the end of a file of `len` bytes yields zero
/// bytes, reading past it is out of range, and any other read is bounded
/// by what is left.
pub fn read_window(len: u64, offset: u64, size: usize) -> (r: Result<usize, Error>)
    ensures
        offset == len ==> r == Ok::<usize, Error>(0),
        offset > len ==> r == Err::<usize, Error>(Error::OutOfRange),
        offset < len ==> (r matches Ok(n) && n == if size <= len - offset {
            size as int
        } else {
            len - offset
        }),
{
    if offset == len {
        Ok(0)
    } else if offset > len {
        Err(Error::OutOfRange)
    } else {
        let avail = len - offset;
        if (size as u64) <= avail {
            Ok(size)
        } else {
            Ok(avail as usize)
        }
    }
}

} // verus!
