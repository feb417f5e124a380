//! The distributed-filer backend's node mapping: what a filer listing or
//! attribute probe means as filesystem entries.  Issuing the requests and
//! decoding the wire format is the shell's business; the semantics — an
//! entry's size is the sum of its chunk sizes, an entry without chunks is
//! a directory, the filer prefix is stripped from full paths — are here.

use vstd::prelude::*;
use crate::bytes::{trim_prefix, trim_prefix_of};
use crate::node::{FileAttr, FileType, Node, NodeView};
use crate::stat::Stat;

verus! {

/// One chunk of a filer entry: only its size matters to the core.
#[derive(Clone, Copy, Debug, PartialEq, Eq, Structural)]
pub struct Chunk {
    pub size: u64,
}

/// One entry of a filer listing, as the shell decodes it: the full path
/// the filer reported, its times as seconds since the epoch, and its
/// chunks.
#[derive(Debug)]
pub struct FilerEntry {
    pub fullpath: Vec<u8>,
    pub mtime: u64,
    pub crtime: u64,
    pub chunks: Vec<Chunk>,
}

/// The sum of the chunk sizes.
pub open spec fn chunk_total(cs: Seq<Chunk>) -> int
    decreases cs.len(),
{
    if cs.len() == 0 {
        0
    } else {
        chunk_total(cs.drop_last()) + cs.last().size
    }
}

/// Adds the chunk sizes up, saturating at the largest representable
/// size.
pub fn chunk_sum(chunks: &Vec<Chunk>) -> (r: u64)
    ensures
        r == if chunk_total(chunks@) <= u64::MAX {
            chunk_total(chunks@)
        } else {
            u64::MAX as int
        },
{
    let mut r: u64 = 0;
    let mut i: usize = 0;
    while i < chunks.len()
        invariant
            i <= chunks@.len(),
            r == if chunk_total(chunks@.subrange(0, i as int)) <= u64::MAX {
                chunk_total(chunks@.subrange(0, i as int))
            } else {
                u64::MAX as int
            },
        decreases chunks@.len() - i,
    {
        proof {
            assert(chunks@.subrange(0, i + 1 as int).drop_last() =~= chunks@.subrange(0, i as int));
            assert(chunks@.subrange(0, i + 1 as int).last() == chunks@[i as int]);
        }
        r = r.saturating_add(chunks[i].size);
        i = i + 1;
    }
    proof {
        assert(chunks@.subrange(0, chunks@.len() as int) =~= chunks@);
    }
    r
}

/// The attribute block of a filer entry: sized by its chunks, a
/// directory with mode 0755 when it has none, a regular file with mode
/// 0644 otherwise, accessed now, modified at its own times.
pub open spec fn filer_entry_attr(e: FilerEntry, now: u64) -> FileAttr {
    let size = if chunk_total(e.chunks@) <= u64::MAX {
        chunk_total(e.chunks@) as u64
    } else {
        u64::MAX
    };
    FileAttr {
        ino: 0,
        size,
        blocks: 1,
        atime: now,
        mtime: e.mtime,
        ctime: e.crtime,
        crtime: e.crtime,
        kind: if e.chunks@.len() == 0 {
            FileType::Directory
        } else {
            FileType::RegularFile
        },
        perm: if e.chunks@.len() == 0 {
            0o755
        } else {
            0o644
        },
        nlink: 1,
        uid: 0,
        gid: 0,
        rdev: 0,
        flags: 0,
    }
}

/// Maps one filer listing entry to a node: the filer prefix is stripped
/// from the full path, and the attributes follow the chunks.
pub fn filer_node(entry: &FilerEntry, prefix: &Vec<u8>, now: u64) -> (r: Node)
    ensures
        r@ == (NodeView {
            inode: 0,
            parent: 0,
            path: trim_prefix_of(entry.fullpath@, prefix@),
            attr: filer_entry_attr(*entry, now),
        }),
{
    let true_path = trim_prefix(&entry.fullpath, prefix);
    let size = chunk_sum(&entry.chunks);
    let is_dir = entry.chunks.len() == 0;
    Node::new(
        0,
        0,
        true_path,
        FileAttr {
            ino: 0,
            size,
            blocks: 1,
            atime: now,
            mtime: entry.mtime,
            ctime: entry.crtime,
            crtime: entry.crtime,
            kind: if is_dir {
                FileType::Directory
            } else {
                FileType::RegularFile
            },
            perm: if is_dir {
                0o755
            } else {
                0o644
            },
            nlink: 1,
            uid: 0,
            gid: 0,
            rdev: 0,
            flags: 0,
        },
    )
}

/// Maps a whole filer listing to nodes, in listing order.
pub fn filer_children(entries: &Vec<FilerEntry>, prefix: &Vec<u8>, now: u64) -> (r: Vec<Node>)
    ensures
        r@.len() == entries@.len(),
        forall|k: int|
            0 <= k < entries@.len() ==> (#[trigger] r@[k])@ == (NodeView {
                inode: 0,
                parent: 0,
                path: trim_prefix_of(entries@[k].fullpath@, prefix@),
                attr: filer_entry_attr(entries@[k], now),
            }),
{
    let mut r: Vec<Node> = Vec::new();
    let mut i: usize = 0;
    while i < entries.len()
        invariant
            i <= entries@.len(),
            r@.len() == i,
            forall|k: int|
                0 <= k < i ==> (#[trigger] r@[k])@ == (NodeView {
                    inode: 0,
                    parent: 0,
                    path: trim_prefix_of(entries@[k].fullpath@, prefix@),
                    attr: filer_entry_attr(entries@[k], now),
                }),
        decreases entries@.len() - i,
    {
        let node = filer_node(&entries[i], prefix, now);
        r.push(node);
        i = i + 1;
    }
    r
}

/// The attribute block of a filer head probe: size from the content
/// length, modification from the reported time, a directory when the
/// filer says so — shown with mode 0755 — a regular file with mode 0644
/// otherwise.
pub fn filer_probe_attr(size: u64, last_modified: u64, is_dir: bool, now: u64) -> (r: FileAttr)
    ensures
        r == (FileAttr {
            ino: 0,
            size,
            blocks: 1,
            atime: now,
            mtime: last_modified,
            ctime: 0,
            crtime: 0,
            kind: if is_dir {
                FileType::Directory
            } else {
                FileType::RegularFile
            },
            perm: if is_dir {
                0o755u16
            } else {
                0o644u16
            },
            nlink: 1,
            uid: 0,
            gid: 0,
            rdev: 0,
            flags: 0,
        }),
{
    FileAttr {
        ino: 0,
        size,
        blocks: 1,
        atime: now,
        mtime: last_modified,
        ctime: 0,
        crtime: 0,
        kind: if is_dir {
            FileType::Directory
        } else {
            FileType::RegularFile
        },
        perm: if is_dir {
            0o755
        } else {
            0o644
        },
        nlink: 1,
        uid: 0,
        gid: 0,
        rdev: 0,
        flags: 0,
    }
}

/// The fixed statistics the filer backend reports.
pub fn filer_stat() -> (r: Stat)
    ensures
        r == (Stat {
            blocks: 1,
            blocks_free: 1,
            blocks_available: 1,
            files: 1,
            files_free: 1,
            block_size: 1,
            namelen: 65535,
            frsize: 4096,
        }),
{
    Stat {
        blocks: 1,
        blocks_free: 1,
        blocks_available: 1,
        files: 1,
        files_free: 1,
        block_size: 1,
        namelen: 65535,
        frsize: 4096,
    }
}

} // verus!
