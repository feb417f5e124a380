//! A verified in-memory backend: the reference implementation of the
//! backend contract.  It serves a fixed set of files and directories from
//! memory, which makes it the backend of choice for exercising the
//! filesystem core without any input/output.

use vstd::prelude::*;
use crate::backend::{read_window, Backend};
use crate::bytes::{basename, bytes_eq, clone_bytes, path_join};
use crate::error::Error;
use crate::node::{FileAttr, FileType, Node};
use crate::stat::Stat;

verus! {

/// One entry served by the in-memory backend, under its full path.
#[derive(Debug)]
pub struct MemoryFile {
    pub path: Vec<u8>,
    pub kind: FileType,
    pub mode: u16,
    pub data: Vec<u8>,
    pub mtime: u64,
}

/// The in-memory backend.  `create_calls` counts how often `mknod` was
/// asked to create something, successfully or not, so that callers can
/// observe whether the facade reached for the backend at all.
#[derive(Debug)]
pub struct MemoryBackend {
    pub root_path: Vec<u8>,
    pub uid: u32,
    pub gid: u32,
    pub now: u64,
    pub files: Vec<MemoryFile>,
    pub create_calls: u64,
}


/// The position of the first entry stored under `path`, or `-1` when no
/// entry has that path.
pub open spec fn entry_slot(files: Seq<MemoryFile>, path: Seq<u8>) -> int
    decreases files.len(),
{
    if files.len() == 0 {
        -1
    } else if files.first().path@ == path {
        0
    } else if entry_slot(files.drop_first(), path) == -1 {
        -1
    } else {
        1 + entry_slot(files.drop_first(), path)
    }
}

/// When position `k` holds `path` and no earlier position does, `k` is
/// the first match.
proof fn lemma_entry_slot_found(files: Seq<MemoryFile>, path: Seq<u8>, k: int)
    requires
        0 <= k < files.len(),
        files[k].path@ == path,
        forall|j: int| 0 <= j < k ==> files[j].path@ != path,
    ensures
        entry_slot(files, path) == k,
    decreases files.len(),
{
    if files.first().path@ == path {
        assert(k == 0);
    } else {
        assert(k > 0);
        assert(forall|j: int| 0 <= j < files.len() - 1 ==> files.drop_first()[j] == files[j + 1]);
        lemma_entry_slot_found(files.drop_first(), path, k - 1);
    }
}

/// When no entry holds `path`, there is no first match.
proof fn lemma_entry_slot_missing(files: Seq<MemoryFile>, path: Seq<u8>)
    requires
        forall|j: int| 0 <= j < files.len() ==> files[j].path@ != path,
    ensures
        entry_slot(files, path) == -1,
    decreases files.len(),
{
    if files.len() > 0 {
        assert(forall|j: int| 0 <= j < files.len() - 1 ==> files.drop_first()[j] == files[j + 1]);
        lemma_entry_slot_missing(files.drop_first(), path);
    }
}

impl MemoryBackend {
    /// An empty backend rooted at `root_path`.
    pub fn new(root_path: Vec<u8>, uid: u32, gid: u32, now: u64) -> (r: MemoryBackend)
        ensures
            r.root_path@ == root_path@,
            r.uid == uid,
            r.gid == gid,
            r.now == now,
            r.files@.len() == 0,
            r.create_calls == 0,
    {
        MemoryBackend { root_path, uid, gid, now, files: Vec::new(), create_calls: 0 }
    }

    /// Adds the entry `name` inside the directory `dir` with the given
    /// kind, permission bits and contents.
    pub fn insert_file(
        &mut self,
        dir: &Vec<u8>,
        name: &Vec<u8>,
        kind: FileType,
        mode: u16,
        data: Vec<u8>,
    )
        ensures
            final(self).files@.len() == old(self).files@.len() + 1,
            final(self).files@.last().path@ == crate::bytes::join_of(dir@, name@),
            final(self).files@.last().kind == kind,
            final(self).files@.last().mode == mode,
            final(self).files@.last().data@ == data@,
            forall|k: int|
                0 <= k < old(self).files@.len() ==> #[trigger] final(self).files@[k]
                    == old(self).files@[k],
            final(self).root_path == old(self).root_path,
            final(self).uid == old(self).uid,
            final(self).gid == old(self).gid,
            final(self).now == old(self).now,
            final(self).create_calls == old(self).create_calls,
    {
        let path = path_join(dir, name);
        let mtime = self.now;
        self.files.push(MemoryFile { path, kind, mode, data, mtime });
    }

    /// How often the backend was asked to create a node.
    pub fn create_count(&self) -> (r: u64)
        ensures
            r == self.create_calls,
    {
        self.create_calls
    }

    /// Exactly the clamped window of the stored file at `path`: the
    /// bytes `[offset, offset + min(size, len - offset))` of its
    /// contents, where `len` is its length; empty exactly at the end,
    /// out of range past it, and not-found when no entry has that path.
    pub fn read_bytes(&self, path: &Vec<u8>, offset: u64, size: usize) -> (r: Result<
        Vec<u8>,
        Error,
    >)
        ensures
            ({
                let s = entry_slot(self.files@, path@);
                if s == -1 {
                    r == Err::<Vec<u8>, Error>(Error::NotFound)
                } else {
                    let data = self.files@[s].data@;
                    if offset > data.len() {
                        r == Err::<Vec<u8>, Error>(Error::OutOfRange)
                    } else {
                        r matches Ok(d) && d@ == data.subrange(
                            offset as int,
                            offset + if size <= data.len() - offset {
                                size as int
                            } else {
                                data.len() - offset
                            },
                        )
                    }
                }
            }),
            r matches Ok(d) ==> d@.len() <= size,
    {
        match self.find(path) {
            Some(i) => {
                let f = &self.files[i];
                match read_window(f.data.len() as u64, offset, size) {
                    Ok(n) => {
                        proof {
                            assert(offset <= f.data@.len());
                        }
                        let start = offset as usize;
                        proof {
                            assert(start + n <= f.data@.len());
                        }
                        let mut out: Vec<u8> = Vec::new();
                        let mut k: usize = 0;
                        while k < n
                            invariant
                                k <= n,
                                out@.len() == k,
                                start + n <= f.data@.len(),
                                f.data@.len() <= usize::MAX,
                                n <= size,
                                out@ == f.data@.subrange(start as int, start + k),
                            decreases n - k,
                        {
                            out.push(f.data[start + k]);
                            assert(out@ == f.data@.subrange(start as int, start + k + 1));
                            k = k + 1;
                        }
                        Ok(out)
                    }
                    Err(e) => Err(e),
                }
            }
            None => Err(Error::NotFound),
        }
    }

    /// The attribute block of the stored entry at position `i`.
    fn attr_of(&self, i: usize) -> (r: FileAttr)
        requires
            i < self.files@.len(),
        ensures
            r.ino == 0,
            r.size == self.files@[i as int].data@.len(),
            r.kind == self.files@[i as int].kind,
            r.perm == self.files@[i as int].mode,
    {
        let f = &self.files[i];
        FileAttr {
            ino: 0,
            size: f.data.len() as u64,
            blocks: 1,
            atime: self.now,
            mtime: f.mtime,
            ctime: f.mtime,
            crtime: f.mtime,
            kind: f.kind,
            perm: f.mode,
            nlink: 1,
            uid: self.uid,
            gid: self.gid,
            rdev: 0,
            flags: 0,
        }
    }

    /// The position of the first entry stored under `path`.
    fn find(&self, path: &Vec<u8>) -> (r: Option<usize>)
        ensures
            r matches Some(i) ==> i == entry_slot(self.files@, path@) && i < self.files@.len()
                && self.files@[i as int].path@ == path@,
            r is None ==> entry_slot(self.files@, path@) == -1,
    {
        let mut i: usize = 0;
        while i < self.files.len()
            invariant
                i <= self.files@.len(),
                forall|j: int| 0 <= j < i ==> (#[trigger] self.files@[j]).path@ != path@,
            decreases self.files@.len() - i,
        {
            if bytes_eq(&self.files[i].path, path) {
                proof {
                    lemma_entry_slot_found(self.files@, path@, i as int);
                }
                return Some(i);
            }
            i = i + 1;
        }
        proof {
            lemma_entry_slot_missing(self.files@, path@);
        }
        None
    }
}

impl Backend for MemoryBackend {
    fn root(&self) -> (r: Node) {
        let path = clone_bytes(&self.root_path);
        Node::new(
            1,
            1,
            path,
            FileAttr {
                ino: 1,
                size: 4096,
                blocks: 1,
                atime: self.now,
                mtime: self.now,
                ctime: self.now,
                crtime: self.now,
                kind: FileType::Directory,
                perm: 0o755,
                nlink: 2,
                uid: self.uid,
                gid: self.gid,
                rdev: 0,
                flags: 0,
            },
        )
    }

    fn get_children(&self, path: &Vec<u8>) -> (r: Result<Vec<Node>, Error>) {
        let mut result: Vec<Node> = Vec::new();
        let mut i: usize = 0;
        while i < self.files.len()
            invariant
                i <= self.files@.len(),
                forall|k: int|
                    0 <= k < result@.len() ==> crate::backend::unassigned(
                        (#[trigger] result@[k])@,
                    ),
            decreases self.files@.len() - i,
        {
            let bn = basename(&self.files[i].path);
            let candidate = path_join(path, &bn);
            if bytes_eq(&candidate, &self.files[i].path) {
                let attr = self.attr_of(i);
                let child_path = clone_bytes(&self.files[i].path);
                result.push(Node::new(0, 0, child_path, attr));
            }
            i = i + 1;
        }
        Ok(result)
    }

    fn get_node(&self, path: &Vec<u8>) -> (r: Result<Node, Error>) {
        match self.find(path) {
            Some(i) => {
                let attr = self.attr_of(i);
                let node_path = clone_bytes(path);
                Ok(Node::new(0, 0, node_path, attr))
            }
            None => Err(Error::NotFound),
        }
    }

    fn statfs(&self, path: &Vec<u8>) -> Result<Stat, Error> {
        Ok(
            Stat {
                blocks: 1,
                blocks_free: 1,
                blocks_available: 1,
                files: 1,
                files_free: 1,
                block_size: 4096,
                namelen: 65535,
                frsize: 4096,
            },
        )
    }

    fn mknod(&mut self, path: &Vec<u8>, filetype: FileType, mode: u32) -> Result<(), Error> {
        if self.create_calls < u64::MAX {
            self.create_calls = self.create_calls + 1;
        }
        match self.find(path) {
            Some(_) => Err(Error::AlreadyExists),
            None => {
                let stored_path = clone_bytes(path);
                let mtime = self.now;
                self.files.push(
                    MemoryFile {
                        path: stored_path,
                        kind: filetype,
                        mode: mode as u16,
                        data: Vec::new(),
                        mtime,
                    },
                );
                Ok(())
            }
        }
    }

    fn read(&self, path: &Vec<u8>, offset: u64, size: usize) -> (r: Result<Vec<u8>, Error>) {
        self.read_bytes(path, offset, size)
    }
}

} // verus!
