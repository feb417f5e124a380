//! The request translator: turns kernel-bridge operations into facade
//! calls, allocates opaque open handles, paginates directory replies, and
//! maps domain errors to the numeric codes the kernel expects.
//! Operations outside the implemented set reply with the
//! not-implemented code.

use vstd::prelude::*;
use crate::backend::Backend;
use crate::bytes::{basename, basename_of, check_name, valid_name};
use crate::error::{errno_of, Error, EBADF, EINVAL, ENOENT, ENOSYS};
use crate::filesystem::{
    lookup_post, mknod_post, read_post, readdir_post, FileSystem,
};
use crate::node::{FileAttr, FileType, Node};
use crate::stat::Stat;

verus! {

/// One entry of a directory reply: what the kernel bridge's reply buffer
/// takes per child.
#[derive(Debug)]
pub struct DirEntry {
    pub ino: u64,
    pub offset: i64,
    pub kind: FileType,
    pub name: Vec<u8>,
}

/// The state of one issued handle.
#[derive(Clone, Copy, Debug, PartialEq, Eq, Structural)]
pub struct HandleEntry {
    pub ino: u64,
    pub flags: u32,
    pub released: bool,
}

/// The open-handle table: handles are opaque tokens issued monotonically
/// from two on, never zero, and single-use once released.
#[derive(Debug)]
pub struct HandleTable {
    pub next_handle: u64,
    pub entries: Vec<HandleEntry>,
}

/// How many of the handles in `entries` are open on `ino`: the advisory
/// per-inode reference count.
pub open spec fn count_open(entries: Seq<HandleEntry>, ino: u64) -> int
    decreases entries.len(),
{
    if entries.len() == 0 {
        0
    } else {
        count_open(entries.drop_last(), ino) + if entries.last().ino == ino
            && !entries.last().released {
            1int
        } else {
            0int
        }
    }
}

impl HandleTable {
    /// Handles are dense: the token `h` was issued exactly when
    /// `2 <= h < next_handle`, and its state sits at `h - 2`.
    pub open spec fn wf(self) -> bool {
        &&& self.next_handle == self.entries@.len() + 2
        &&& self.entries@.len() <= usize::MAX
    }

    /// Whether `fh` was issued and not yet released.
    pub open spec fn opened(self, fh: u64) -> bool {
        &&& 2 <= fh < self.next_handle
        &&& !self.entries@[fh - 2].released
    }

    pub fn new() -> (r: HandleTable)
        ensures
            r.wf(),
            r.next_handle == 2,
            r.entries@.len() == 0,
    {
        HandleTable { next_handle: 2, entries: Vec::new() }
    }

    /// Issues a fresh handle on `ino` with the given flags.
    pub fn open(&mut self, ino: u64, flags: u32) -> (fh: u64)
        requires
            old(self).wf(),
            old(self).entries@.len() + 3 <= u64::MAX,
            old(self).entries@.len() < usize::MAX,
        ensures
            final(self).wf(),
            fh == old(self).next_handle,
            final(self).next_handle == old(self).next_handle + 1,
            final(self).entries@ == old(self).entries@.push(
                HandleEntry { ino, flags, released: false },
            ),
            final(self).opened(fh),
            forall|h: u64| old(self).opened(h) ==> final(self).opened(h),
    {
        let fh = self.next_handle;
        self.entries.push(HandleEntry { ino, flags, released: false });
        self.next_handle = self.next_handle + 1;
        fh
    }

    /// Whether `fh` is currently open.
    pub fn is_open(&self, fh: u64) -> (r: bool)
        requires
            self.wf(),
        ensures
            r == self.opened(fh),
    {
        fh >= 2 && fh < self.next_handle && !self.entries[(fh - 2) as usize].released
    }

    /// Releases an open handle; a released or unknown handle is a
    /// `BadHandle` failure, and the table does not change.
    pub fn release(&mut self, fh: u64) -> (r: Result<(), Error>)
        requires
            old(self).wf(),
        ensures
            final(self).wf(),
            old(self).opened(fh) ==> r == Ok::<(), Error>(()) && final(self).entries@
                == old(self).entries@.update(
                fh - 2,
                HandleEntry { released: true, ..old(self).entries@[fh - 2] },
            ) && final(self).next_handle == old(self).next_handle,
            !old(self).opened(fh) ==> r == Err::<(), Error>(Error::BadHandle) && *final(self)
                == *old(self),
    {
        if fh >= 2 && fh < self.next_handle && !self.entries[(fh - 2) as usize].released {
            let i = (fh - 2) as usize;
            let e = self.entries[i];
            self.entries.set(i, HandleEntry { released: true, ..e });
            Ok(())
        } else {
            Err(Error::BadHandle)
        }
    }

    /// The advisory reference count of `ino`: how many issued handles are
    /// open on it.
    pub fn reference_count(&self, ino: u64) -> (r: u64)
        requires
            self.wf(),
        ensures
            r == count_open(self.entries@, ino),
    {
        let mut r: u64 = 0;
        let mut i: usize = 0;
        while i < self.entries.len()
            invariant
                self.wf(),
                i <= self.entries@.len(),
                r == count_open(self.entries@.subrange(0, i as int), ino),
                r <= i,
            decreases self.entries@.len() - i,
        {
            let e = &self.entries[i];
            proof {
                assert(self.entries@.subrange(0, i + 1 as int).drop_last() =~= self.entries@.subrange(
                    0,
                    i as int,
                ));
                assert(self.entries@.subrange(0, i + 1 as int).last() == self.entries@[i as int]);
            }
            if e.ino == ino && !e.released {
                r = r + 1;
            }
            i = i + 1;
        }
        proof {
            assert(self.entries@.subrange(0, self.entries@.len() as int) =~= self.entries@);
        }
        r
    }
}

/// The translator: a facade plus the open-handle table.
#[derive(Debug)]
pub struct Fuse<B: Backend> {
    pub fs: FileSystem<B>,
    pub handles: HandleTable,
}

/// The permission bits the kernel passes, masked and marked as a regular
/// file.
pub open spec fn file_mode(mode: u32) -> u32 {
    (mode & 0x0fff) | 0x8000
}

/// The permission bits the kernel passes, masked and marked as a
/// directory.
pub open spec fn dir_mode(mode: u32) -> u32 {
    (mode & 0x0fff) | 0x4000
}

impl<B: Backend> Fuse<B> {
    pub open spec fn wf(self) -> bool {
        &&& self.fs.wf()
        &&& self.handles.wf()
    }

    /// Builds a translator over a fresh facade.
    pub fn new(backend: B) -> (r: Fuse<B>)
        ensures
            r.wf(),
            r.fs.count() == 2,
            r.fs.backend == backend,
            r.handles.next_handle == 2,
    {
        Fuse { fs: FileSystem::new(backend), handles: HandleTable::new() }
    }

    /// Initialisation needs no backend round-trip and always succeeds.
    pub fn init(&self) -> (r: Result<(), i32>)
        ensures
            r == Ok::<(), i32>(()),
    {
        Ok(())
    }

    /// Nothing to clean up.
    pub fn destroy(&self) {
    }

    /// The kernel forgetting an inode is a no-op: nodes are never
    /// removed.
    pub fn forget(&self, ino: u64, nlookup: u64) {
    }

    /// Looks a directory entry up by name; any failure — an invalid name
    /// included — is reported as no-such-entry, as the bridge expects.
    pub fn lookup(&mut self, parent: u64, name: &Vec<u8>) -> (r: Result<FileAttr, i32>)
        requires
            old(self).wf(),
            old(self).fs.count() < usize::MAX,
        ensures
            final(self).wf(),
            final(self).handles == old(self).handles,
            !valid_name(name@) ==> r == Err::<FileAttr, i32>(ENOENT) && *final(self) == *old(self),
            valid_name(name@) ==> exists|r0: Result<FileAttr, Error>|
                {
                    &&& #[trigger] lookup_post(old(self).fs, final(self).fs, parent, name@, r0)
                    &&& r0 matches Ok(a) ==> r == Ok::<FileAttr, i32>(a)
                    &&& r0 is Err ==> r == Err::<FileAttr, i32>(ENOENT)
                },
    {
        if !check_name(name) {
            return Err(ENOENT);
        }
        let r0 = self.fs.lookup(parent, name);
        proof {
            assert(lookup_post(old(self).fs, self.fs, parent, name@, r0));
        }
        match r0 {
            Ok(attr) => Ok(attr),
            Err(_) => Err(ENOENT),
        }
    }

    /// The attributes of a resident inode, no-such-entry otherwise.
    pub fn getattr(&self, ino: u64) -> (r: Result<FileAttr, i32>)
        requires
            self.wf(),
        ensures
            r == if self.fs.resident(ino as int) {
                Ok::<FileAttr, i32>(self.fs.node_at(ino as int).attr)
            } else {
                Err::<FileAttr, i32>(ENOENT)
            },
    {
        match self.fs.getattr(ino) {
            Some(attr) => Ok(attr),
            None => Err(ENOENT),
        }
    }

    /// Creates a regular file: the mode is masked to its permission bits
    /// and marked as a regular file, and the facade records the node with
    /// the caller's identity and wall time.
    pub fn mknod(
        &mut self,
        parent: u64,
        name: &Vec<u8>,
        mode: u32,
        rdev: u32,
        uid: u32,
        gid: u32,
        now: u64,
    ) -> (r: Result<FileAttr, i32>)
        requires
            old(self).wf(),
            old(self).fs.count() < usize::MAX,
        ensures
            final(self).wf(),
            final(self).handles == old(self).handles,
            !valid_name(name@) ==> r == Err::<FileAttr, i32>(EINVAL) && *final(self) == *old(
                self,
            ),
            valid_name(name@) ==> exists|r0: Result<Node, Error>|
                {
                    &&& #[trigger] mknod_post(
                        old(self).fs,
                        final(self).fs,
                        parent,
                        name@,
                        FileType::RegularFile,
                        file_mode(mode),
                        rdev,
                        uid,
                        gid,
                        now,
                        r0,
                    )
                    &&& r0 matches Ok(n) ==> r == Ok::<FileAttr, i32>(n@.attr)
                    &&& r0 matches Err(e) ==> r == Err::<FileAttr, i32>(errno_of(e))
                },
    {
        if !check_name(name) {
            return Err(EINVAL);
        }
        let masked = (mode & 0x0fff) | 0x8000;
        let r0 = self.fs.mknod(parent, name, FileType::RegularFile, masked, rdev, uid, gid, now);
        proof {
            assert(mknod_post(
                old(self).fs,
                self.fs,
                parent,
                name@,
                FileType::RegularFile,
                file_mode(mode),
                rdev,
                uid,
                gid,
                now,
                r0,
            ));
        }
        match r0 {
            Ok(n) => Ok(n.attr()),
            Err(e) => Err(e.errno()),
        }
    }

    /// Creates a directory: as `mknod`, with the directory type bit.
    pub fn mkdir(&mut self, parent: u64, name: &Vec<u8>, mode: u32, uid: u32, gid: u32, now: u64)
        -> (r: Result<FileAttr, i32>)
        requires
            old(self).wf(),
            old(self).fs.count() < usize::MAX,
        ensures
            final(self).wf(),
            final(self).handles == old(self).handles,
            !valid_name(name@) ==> r == Err::<FileAttr, i32>(EINVAL) && *final(self) == *old(
                self,
            ),
            valid_name(name@) ==> exists|r0: Result<Node, Error>|
                {
                    &&& #[trigger] mknod_post(
                        old(self).fs,
                        final(self).fs,
                        parent,
                        name@,
                        FileType::Directory,
                        dir_mode(mode),
                        0,
                        uid,
                        gid,
                        now,
                        r0,
                    )
                    &&& r0 matches Ok(n) ==> r == Ok::<FileAttr, i32>(n@.attr)
                    &&& r0 matches Err(e) ==> r == Err::<FileAttr, i32>(errno_of(e))
                },
    {
        if !check_name(name) {
            return Err(EINVAL);
        }
        let masked = (mode & 0x0fff) | 0x4000;
        let r0 = self.fs.mknod(parent, name, FileType::Directory, masked, 0, uid, gid, now);
        proof {
            assert(mknod_post(
                old(self).fs,
                self.fs,
                parent,
                name@,
                FileType::Directory,
                dir_mode(mode),
                0,
                uid,
                gid,
                now,
                r0,
            ));
        }
        match r0 {
            Ok(n) => Ok(n.attr()),
            Err(e) => Err(e.errno()),
        }
    }

    /// Opens a file: allocates a fresh handle and raises the advisory
    /// reference count; the flags are handed back unchanged.
    pub fn open(&mut self, ino: u64, flags: u32) -> (r: Result<(u64, u32), i32>)
        requires
            old(self).wf(),
            old(self).handles.entries@.len() + 3 <= u64::MAX,
            old(self).handles.entries@.len() < usize::MAX,
        ensures
            final(self).wf(),
            final(self).fs == old(self).fs,
            r == Ok::<(u64, u32), i32>((old(self).handles.next_handle, flags)),
            final(self).handles.opened(old(self).handles.next_handle),
            final(self).handles.next_handle == old(self).handles.next_handle + 1,
            final(self).handles.entries@ == old(self).handles.entries@.push(
                HandleEntry { ino, flags, released: false },
            ),
            forall|h: u64| old(self).handles.opened(h) ==> final(self).handles.opened(h),
            count_open(final(self).handles.entries@, ino) == count_open(
                old(self).handles.entries@,
                ino,
            ) + 1,
    {
        let fh = self.handles.open(ino, flags);
        proof {
            assert(self.handles.entries@.drop_last() =~= old(self).handles.entries@);
        }
        Ok((fh, flags))
    }

    /// Releases an open file handle; a released or unknown handle fails
    /// with the bad-handle code.
    pub fn release(&mut self, fh: u64) -> (r: Result<(), i32>)
        requires
            old(self).wf(),
        ensures
            final(self).wf(),
            final(self).fs == old(self).fs,
            old(self).handles.opened(fh) ==> r == Ok::<(), i32>(()) && !final(self).handles.opened(
                fh,
            ),
            !old(self).handles.opened(fh) ==> r == Err::<(), i32>(EBADF) && *final(self) == *old(
                self,
            ),
    {
        match self.handles.release(fh) {
            Ok(()) => Ok(()),
            Err(_) => Err(EBADF),
        }
    }

    /// Opens a directory: allocates a fresh handle, as `open` does.
    pub fn opendir(&mut self, ino: u64, flags: u32) -> (r: Result<(u64, u32), i32>)
        requires
            old(self).wf(),
            ino != 0,
            old(self).handles.entries@.len() + 3 <= u64::MAX,
            old(self).handles.entries@.len() < usize::MAX,
        ensures
            final(self).wf(),
            final(self).fs == old(self).fs,
            r == Ok::<(u64, u32), i32>((old(self).handles.next_handle, 0o777)),
            final(self).handles.opened(old(self).handles.next_handle),
            final(self).handles.next_handle == old(self).handles.next_handle + 1,
            final(self).handles.entries@ == old(self).handles.entries@.push(
                HandleEntry { ino, flags, released: false },
            ),
            forall|h: u64| old(self).handles.opened(h) ==> final(self).handles.opened(h),
            count_open(final(self).handles.entries@, ino) == count_open(
                old(self).handles.entries@,
                ino,
            ) + 1,
    {
        let fh = self.handles.open(ino, flags);
        proof {
            assert(self.handles.entries@.drop_last() =~= old(self).handles.entries@);
        }
        Ok((fh, 0o777))
    }

    /// Releases an open directory handle.
    pub fn releasedir(&mut self, fh: u64) -> (r: Result<(), i32>)
        requires
            old(self).wf(),
        ensures
            final(self).wf(),
            final(self).fs == old(self).fs,
            old(self).handles.opened(fh) ==> r == Ok::<(), i32>(()) && !final(self).handles.opened(
                fh,
            ),
            !old(self).handles.opened(fh) ==> r == Err::<(), i32>(EBADF) && *final(self) == *old(
                self,
            ),
    {
        match self.handles.release(fh) {
            Ok(()) => Ok(()),
            Err(_) => Err(EBADF),
        }
    }

    /// Reads bytes through the facade's clamp; the handle must be open,
    /// and a negative or oversized offset is an invalid argument.
    pub fn read(&self, ino: u64, fh: u64, offset: i64, size: u32) -> (r: Result<Vec<u8>, i32>)
        requires
            self.wf(),
        ensures
            !self.handles.opened(fh) ==> r == Err::<Vec<u8>, i32>(EBADF),
            self.handles.opened(fh) && 0 <= offset <= usize::MAX ==> exists|
                r0: Result<Vec<u8>, Error>,
            |
                {
                    &&& #[trigger] read_post(self.fs, ino, false, offset as int, size as int, r0)
                    &&& r0 matches Ok(d) ==> r == Ok::<Vec<u8>, i32>(d)
                    &&& r0 matches Err(e) ==> r == Err::<Vec<u8>, i32>(errno_of(e))
                },
    {
        if !self.handles.is_open(fh) {
            return Err(EBADF);
        }
        if offset < 0 || offset as u64 > usize::MAX as u64 {
            return Err(EINVAL);
        }
        let r0 = self.fs.read(ino, fh, false, offset as usize, size as usize);
        proof {
            assert(read_post(self.fs, ino, false, offset as int, size as int, r0));
        }
        match r0 {
            Ok(data) => Ok(data),
            Err(e) => Err(e.errno()),
        }
    }

    /// One page of a directory: each reply entry carries the child's
    /// inode, the offset the kernel should resume at, its kind, and its
    /// basename.
    #[verifier::rlimit(100)]
    pub fn readdir(&mut self, ino: u64, fh: u64, offset: i64) -> (r: Result<Vec<DirEntry>, i32>)
        requires
            old(self).wf(),
        ensures
            final(self).wf(),
            final(self).handles == old(self).handles,
            !old(self).handles.opened(fh) ==> r == Err::<Vec<DirEntry>, i32>(EBADF) && *final(self)
                == *old(self),
            old(self).handles.opened(fh) && !(0 <= offset <= usize::MAX && offset
                <= i64::MAX - (READDIR_PAGE_ENTRIES as i64)) ==> r == Err::<Vec<DirEntry>, i32>(
                EINVAL,
            ) && *final(self) == *old(self),
            old(self).handles.opened(fh) && 0 <= offset <= usize::MAX && offset <= i64::MAX - (
            READDIR_PAGE_ENTRIES as i64) ==> exists|r0: Result<Vec<Node>, Error>|
                {
                    &&& #[trigger] readdir_post(
                        old(self).fs,
                        final(self).fs,
                        ino,
                        offset as int,
                        r0,
                    )
                    &&& r0 matches Ok(children) ==> (r matches Ok(page) && page@.len()
                        == children@.len() && forall|k: int|
                        0 <= k < children@.len() ==> {
                            let e = #[trigger] page@[k];
                            &&& e.ino == children@[k]@.inode
                            &&& e.offset == offset + k + 1
                            &&& e.kind == children@[k]@.attr.kind
                            &&& e.name@ == basename_of(children@[k]@.path)
                        })
                    &&& r0 matches Err(e) ==> r == Err::<Vec<DirEntry>, i32>(errno_of(e))
                },
    {
        if !self.handles.is_open(fh) {
            return Err(EBADF);
        }
        if offset < 0 || offset as u64 > usize::MAX as u64 || offset > i64::MAX
            - READDIR_PAGE_ENTRIES as i64 {
            return Err(EINVAL);
        }
        let r0 = self.fs.readdir(ino, fh, offset as usize);
        proof {
            assert(readdir_post(old(self).fs, self.fs, ino, offset as int, r0));
        }
        match r0 {
            Ok(children) => {
                let mut page: Vec<DirEntry> = Vec::new();
                let mut k: usize = 0;
                proof {
                    let p = ino as int;
                    assert(children@.len() <= READDIR_PAGE_ENTRIES) by {
                        if old(self).fs.resident(p) {
                            if !(offset as int == 0 && old(self).fs.children_of(p).len() == 0) {
                                assert(crate::manager::children_window(
                                    old(self).fs.nodes_manager,
                                    p,
                                    offset as int,
                                    crate::filesystem::READDIR_PAGE_LIMIT as int,
                                    children@,
                                ));
                            } else {
                                assert(crate::manager::children_window(
                                    self.fs.nodes_manager,
                                    p,
                                    offset as int,
                                    crate::filesystem::READDIR_PAGE_LIMIT as int,
                                    children@,
                                ));
                            }
                        }
                    }
                }
                while k < children.len()
                    invariant
                        k <= children@.len(),
                        children@.len() <= READDIR_PAGE_ENTRIES,
                        offset <= i64::MAX - (READDIR_PAGE_ENTRIES as i64),
                        0 <= offset,
                        page@.len() == k,
                        forall|j: int|
                            0 <= j < k ==> {
                                let e = #[trigger] page@[j];
                                &&& e.ino == children@[j]@.inode
                                &&& e.offset == offset + j + 1
                                &&& e.kind == children@[j]@.attr.kind
                                &&& e.name@ == basename_of(children@[j]@.path)
                            },
                    decreases children@.len() - k,
                {
                    let child = &children[k];
                    let name = basename(child.path_ref());
                    let entry = DirEntry {
                        ino: child.inode(),
                        offset: offset + (k as i64) + 1,
                        kind: child.attr().kind,
                        name,
                    };
                    page.push(entry);
                    k = k + 1;
                }
                Ok(page)
            }
            Err(e) => Err(e.errno()),
        }
    }

    /// The statistics of the filesystem behind a resident inode:
    /// no-such-entry exactly on non-resident inodes, and otherwise
    /// either the statistics or the input/output code for a backend that
    /// could not be reached.
    pub fn statfs(&self, ino: u64) -> (r: Result<Stat, i32>)
        requires
            self.wf(),
        ensures
            r == Err::<Stat, i32>(ENOENT) <==> !self.fs.resident(ino as int),
            self.fs.resident(ino as int) ==> (r is Ok || r == Err::<Stat, i32>(
                crate::error::EIO,
            )),
    {
        match self.fs.statfs(ino) {
            Ok(stat) => Ok(stat),
            Err(e) => Err(e.errno()),
        }
    }

    /// Setting attributes is not implemented.
    pub fn setattr(&self, ino: u64) -> (r: Result<FileAttr, i32>)
        ensures
            r == Err::<FileAttr, i32>(ENOSYS),
    {
        Err(ENOSYS)
    }

    /// Symbolic links are not implemented.
    pub fn readlink(&self, ino: u64) -> (r: Result<Vec<u8>, i32>)
        ensures
            r == Err::<Vec<u8>, i32>(ENOSYS),
    {
        Err(ENOSYS)
    }

    /// Removal is not implemented: nodes are never removed.
    pub fn unlink(&self, parent: u64, name: &Vec<u8>) -> (r: Result<(), i32>)
        ensures
            r == Err::<(), i32>(ENOSYS),
    {
        Err(ENOSYS)
    }

    /// Directory removal is not implemented.
    pub fn rmdir(&self, parent: u64, name: &Vec<u8>) -> (r: Result<(), i32>)
        ensures
            r == Err::<(), i32>(ENOSYS),
    {
        Err(ENOSYS)
    }

    /// Symbolic links are not implemented.
    pub fn symlink(&self, parent: u64, name: &Vec<u8>, link: &Vec<u8>) -> (r: Result<
        FileAttr,
        i32,
    >)
        ensures
            r == Err::<FileAttr, i32>(ENOSYS),
    {
        Err(ENOSYS)
    }

    /// Renaming is not implemented.
    pub fn rename(&self, parent: u64, name: &Vec<u8>, newparent: u64, newname: &Vec<u8>) -> (r:
        Result<(), i32>)
        ensures
            r == Err::<(), i32>(ENOSYS),
    {
        Err(ENOSYS)
    }

    /// Hard links are not implemented.
    pub fn link(&self, ino: u64, newparent: u64, newname: &Vec<u8>) -> (r: Result<FileAttr, i32>)
        ensures
            r == Err::<FileAttr, i32>(ENOSYS),
    {
        Err(ENOSYS)
    }

    /// Writing is not implemented: the filesystem is read-mostly and
    /// creation goes through `mknod`.
    pub fn write(&self, ino: u64, fh: u64, offset: i64, data: &Vec<u8>, flags: u32) -> (r: Result<
        u32,
        i32,
    >)
        ensures
            r == Err::<u32, i32>(ENOSYS),
    {
        Err(ENOSYS)
    }

    /// Flushing is not implemented.
    pub fn flush(&self, ino: u64, fh: u64, lock_owner: u64) -> (r: Result<(), i32>)
        ensures
            r == Err::<(), i32>(ENOSYS),
    {
        Err(ENOSYS)
    }

    /// Synchronisation is not implemented.
    pub fn fsync(&self, ino: u64, fh: u64, datasync: bool) -> (r: Result<(), i32>)
        ensures
            r == Err::<(), i32>(ENOSYS),
    {
        Err(ENOSYS)
    }

    /// Directory synchronisation is not implemented.
    pub fn fsyncdir(&self, ino: u64, fh: u64, datasync: bool) -> (r: Result<(), i32>)
        ensures
            r == Err::<(), i32>(ENOSYS),
    {
        Err(ENOSYS)
    }

    /// Extended attributes are not implemented.
    pub fn setxattr(&self, ino: u64, name: &Vec<u8>, value: &Vec<u8>) -> (r: Result<(), i32>)
        ensures
            r == Err::<(), i32>(ENOSYS),
    {
        Err(ENOSYS)
    }

    /// Extended attributes are not implemented.
    pub fn getxattr(&self, ino: u64, name: &Vec<u8>, size: u32) -> (r: Result<Vec<u8>, i32>)
        ensures
            r == Err::<Vec<u8>, i32>(ENOSYS),
    {
        Err(ENOSYS)
    }

    /// Extended attributes are not implemented.
    pub fn listxattr(&self, ino: u64, size: u32) -> (r: Result<Vec<u8>, i32>)
        ensures
            r == Err::<Vec<u8>, i32>(ENOSYS),
    {
        Err(ENOSYS)
    }

    /// Extended attributes are not implemented.
    pub fn removexattr(&self, ino: u64, name: &Vec<u8>) -> (r: Result<(), i32>)
        ensures
            r == Err::<(), i32>(ENOSYS),
    {
        Err(ENOSYS)
    }

    /// Access checks are left to the kernel.
    pub fn access(&self, ino: u64, mask: u32) -> (r: Result<(), i32>)
        ensures
            r == Err::<(), i32>(ENOSYS),
    {
        Err(ENOSYS)
    }

    /// Atomic create-and-open is not implemented; the kernel falls back
    /// to `mknod` and `open`.
    pub fn create(&self, parent: u64, name: &Vec<u8>, mode: u32, flags: u32) -> (r: Result<
        (FileAttr, u64, u32),
        i32,
    >)
        ensures
            r == Err::<(FileAttr, u64, u32), i32>(ENOSYS),
    {
        Err(ENOSYS)
    }

    /// File locks are not implemented.
    pub fn getlk(&self, ino: u64, fh: u64, lock_owner: u64) -> (r: Result<(), i32>)
        ensures
            r == Err::<(), i32>(ENOSYS),
    {
        Err(ENOSYS)
    }

    /// File locks are not implemented.
    pub fn setlk(&self, ino: u64, fh: u64, lock_owner: u64, sleep: bool) -> (r: Result<(), i32>)
        ensures
            r == Err::<(), i32>(ENOSYS),
    {
        Err(ENOSYS)
    }

    /// Block mapping makes no sense for this filesystem.
    pub fn bmap(&self, ino: u64, blocksize: u32, idx: u64) -> (r: Result<u64, i32>)
        ensures
            r == Err::<u64, i32>(ENOSYS),
    {
        Err(ENOSYS)
    }
}

/// The page limit as a plain entry count.
pub const READDIR_PAGE_ENTRIES: usize = 85;

} // verus!
