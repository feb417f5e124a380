//! The filesystem facade: an inode manager combined with a storage
//! backend, implementing the lazy-fetch policy.  A lookup that misses the
//! name index asks the backend for the single node; a directory listing
//! that finds nothing recorded asks the backend for the whole directory
//! and stores it; reads are clamped against the cached attribute size
//! before the backend is asked for bytes.
//!
//! Every operation's behaviour is captured by a transition predicate
//! relating the facade state before and after the call to the result, and
//! the laws at the bottom of the module are proved from those predicates
//! alone.

use vstd::prelude::*;
use crate::backend::{unassigned, Backend};
use crate::bytes::{join_of, lemma_basename_join, path_join, valid_name};
use crate::error::Error;
use crate::manager::{
    add_child_post, batch_add_post, children_window, AddChild, InodeManager,
};
use crate::node::{FileAttr, FileType, Node, NodeView};
use crate::stat::Stat;

verus! {

/// The well-known inode number of the root.
pub const ROOT_INODE: u64 = 1;

/// How many entries one directory page holds: a full page fits in a
/// single kernel-bridge reply.
pub const READDIR_PAGE_LIMIT: i64 = 85;

/// The facade: a manager and the backend it populates itself from.
#[derive(Debug)]
pub struct FileSystem<B: Backend> {
    pub backend: B,
    pub nodes_manager: InodeManager,
}

impl<B: Backend> FileSystem<B> {
    pub open spec fn wf(self) -> bool {
        self.nodes_manager.wf()
    }

    pub open spec fn count(self) -> int {
        self.nodes_manager.count()
    }

    pub open spec fn resident(self, i: int) -> bool {
        self.nodes_manager.resident(i)
    }

    pub open spec fn node_at(self, i: int) -> NodeView {
        self.nodes_manager.nodes_tree.node_at(i)
    }

    pub open spec fn children_of(self, i: int) -> Seq<u64> {
        self.nodes_manager.nodes_tree.children_of(i)
    }

    pub open spec fn has_child_name(self, p: int, name: Seq<u8>) -> bool {
        self.nodes_manager.has_child_name(p, name)
    }

    pub open spec fn child_ino_by_name(self, p: int, name: Seq<u8>) -> u64 {
        self.nodes_manager.child_ino_by_name(p, name)
    }

    /// Builds a facade over `backend`, asking it for the root node.
    pub fn new(backend: B) -> (r: FileSystem<B>)
        ensures
            r.wf(),
            r.count() == 2,
            r.resident(ROOT_INODE as int),
            r.children_of(ROOT_INODE as int) == Seq::<u64>::empty(),
            r.backend == backend,
    {
        let root = backend.root();
        let nodes_manager = InodeManager::new(root);
        FileSystem { backend, nodes_manager }
    }

    /// The next inode number an insertion would assign.
    pub fn next_inode(&self) -> (r: u64)
        requires
            self.wf(),
        ensures
            r == self.count(),
    {
        self.nodes_manager.next_inode()
    }

    /// The attributes of a resident inode.
    pub fn getattr(&self, ino: u64) -> (r: Option<FileAttr>)
        requires
            self.wf(),
        ensures
            r == if self.resident(ino as int) {
                Some(self.node_at(ino as int).attr)
            } else {
                None::<FileAttr>
            },
    {
        match self.nodes_manager.get_node_by_inode(ino) {
            Ok(node) => Some(node.attr()),
            Err(_) => None,
        }
    }

    /// Records `child_node` under `parent_inode` through the manager; the
    /// backend is not involved.
    pub fn add_node_locally(&mut self, parent_inode: u64, child_node: Node) -> (r: AddChild)
        requires
            old(self).wf(),
            old(self).resident(parent_inode as int),
            old(self).count() < usize::MAX,
        ensures
            final(self).wf(),
            add_child_post(
                old(self).nodes_manager,
                final(self).nodes_manager,
                parent_inode as int,
                child_node@,
                r,
            ),
            final(self).backend == old(self).backend,
    {
        self.nodes_manager.add_child(parent_inode, child_node)
    }

    /// Resolves the child `name` of `ino` through the backend and records
    /// it.  Only called when the name index has no entry for it.
    pub fn fetch_child_by_name(&mut self, ino: u64, name: &Vec<u8>) -> (r: Result<Node, Error>)
        requires
            old(self).wf(),
            old(self).resident(ino as int),
            !old(self).has_child_name(ino as int, name@),
            valid_name(name@),
            old(self).count() < usize::MAX,
        ensures
            final(self).wf(),
            fetch_child_post(*old(self), *final(self), ino, name@, r),
    {
        let parent = match self.nodes_manager.get_node_by_inode(ino) {
            Ok(parent) => parent,
            Err(e) => {
                return Err(e);
            }
        };
        let child_path = path_join(parent.path_ref(), name);
        match self.backend.get_node(&child_path) {
            Ok(child) => {
                let ghost childv = child@;
                proof {
                    lemma_basename_join(old(self).node_at(ino as int).path, name@);
                }
                match self.nodes_manager.add_child(ino, child) {
                    AddChild::Added(i) => {
                        proof {
                            assert(grown_by_child(
                                *old(self),
                                *self,
                                ino as int,
                                name@,
                                join_of(old(self).node_at(ino as int).path, name@),
                                childv.attr,
                            ));
                        }
                        match self.nodes_manager.get_node_by_inode(i) {
                            Ok(node) => Ok(node),
                            Err(e) => Err(e),
                        }
                    }
                    AddChild::Exists(_) => {
                        proof {
                            assert(false);
                        }
                        Err(Error::Other)
                    }
                }
            }
            Err(e) => Err(e),
        }
    }

    /// Looks up the child `name` of `ino`: from the name index when it is
    /// there, from the backend otherwise, recording what the backend
    /// resolved.  A backend miss reports `NotFound`.
    pub fn lookup(&mut self, ino: u64, name: &Vec<u8>) -> (r: Result<FileAttr, Error>)
        requires
            old(self).wf(),
            valid_name(name@),
            old(self).count() < usize::MAX,
        ensures
            final(self).wf(),
            lookup_post(*old(self), *final(self), ino, name@, r),
    {
        let found = self.nodes_manager.get_child_by_name(ino, name);
        match found {
            Err(e) => Err(e),
            Ok(Some(child)) => Ok(child.attr()),
            Ok(None) => match self.fetch_child_by_name(ino, name) {
                Ok(node) => Ok(node.attr()),
                Err(_) => Err(Error::NotFound),
            },
        }
    }

    /// The locally recorded page of children of `ino` starting at
    /// `offset`; `None` signals that nothing is recorded and the backend
    /// should be asked.
    pub fn readdir_local(&self, ino: u64, offset: usize, check_empty: bool) -> (r: Result<
        Option<Vec<Node>>,
        Error,
    >)
        requires
            self.wf(),
        ensures
            !self.resident(ino as int) ==> r == Err::<Option<Vec<Node>>, Error>(Error::NotFound),
            self.resident(ino as int) ==> match r {
                Ok(None) => check_empty && offset == 0 && self.children_of(ino as int).len() == 0,
                Ok(Some(v)) => {
                    &&& !(check_empty && offset == 0 && self.children_of(ino as int).len() == 0)
                    &&& children_window(
                        self.nodes_manager,
                        ino as int,
                        offset as int,
                        READDIR_PAGE_LIMIT as int,
                        v@,
                    )
                }
                Err(_) => false,
            },
    {
        self.nodes_manager.get_children_by_index(ino, offset, READDIR_PAGE_LIMIT, check_empty)
    }

    /// Asks the backend for the whole listing of `ino` and records it;
    /// entries whose basename is already recorded are skipped.  On any
    /// failure the recorded state is left untouched.
    pub fn fetch_children(&mut self, ino: u64) -> (r: Result<(), Error>)
        requires
            old(self).wf(),
            old(self).resident(ino as int),
        ensures
            final(self).wf(),
            fetch_children_post(*old(self), *final(self), ino, r),
    {
        let parent = match self.nodes_manager.get_node_by_inode(ino) {
            Ok(parent) => parent,
            Err(e) => {
                return Err(e);
            }
        };
        let parent_path = parent.path();
        match self.backend.get_children(&parent_path) {
            Ok(children) => {
                let next = self.nodes_manager.next_inode();
                if usize::MAX as u64 - next < children.len() as u64 {
                    return Err(Error::Other);
                }
                let ghost fetched = children@;
                self.nodes_manager.batch_add_children(ino, children);
                proof {
                    assert(batch_add_post(
                        old(self).nodes_manager,
                        self.nodes_manager,
                        ino as int,
                        fetched,
                    ));
                    assert(forall|k: int|
                        0 <= k < fetched.len() ==> unassigned((#[trigger] fetched[k])@));
                }
                Ok(())
            }
            Err(e) => Err(e),
        }
    }

    /// One page of the directory `ino` starting at `offset`: what is
    /// recorded if anything is, else what the backend lists, recorded and
    /// then paged.
    pub fn readdir(&mut self, parent_ino: u64, file_handle: u64, offset: usize) -> (r: Result<
        Vec<Node>,
        Error,
    >)
        requires
            old(self).wf(),
        ensures
            final(self).wf(),
            readdir_post(*old(self), *final(self), parent_ino, offset as int, r),
    {
        match self.readdir_local(parent_ino, offset, true) {
            Err(e) => Err(e),
            Ok(Some(children)) => Ok(children),
            Ok(None) => {
                match self.fetch_children(parent_ino) {
                    Err(e) => Err(e),
                    Ok(()) => {
                        match self.readdir_local(parent_ino, offset, false) {
                            Ok(Some(children)) => Ok(children),
                            Ok(None) => {
                                proof {
                                    assert(false);
                                }
                                Ok(Vec::new())
                            }
                            Err(e) => {
                                proof {
                                    assert(false);
                                }
                                Err(e)
                            }
                        }
                    }
                }
            }
        }
    }

    /// Creates the child `name` of `parent` through the backend and
    /// records it, unless the basename is already recorded; then the
    /// backend is not asked at all and `AlreadyExists` is reported.
    pub fn mknod(
        &mut self,
        parent: u64,
        name: &Vec<u8>,
        filetype: FileType,
        mode: u32,
        rdev: u32,
        uid: u32,
        gid: u32,
        now: u64,
    ) -> (r: Result<Node, Error>)
        requires
            old(self).wf(),
            valid_name(name@),
            old(self).count() < usize::MAX,
        ensures
            final(self).wf(),
            mknod_post(
                *old(self),
                *final(self),
                parent,
                name@,
                filetype,
                mode,
                rdev,
                uid,
                gid,
                now,
                r,
            ),
    {
        let parent_node = match self.nodes_manager.get_node_by_inode(parent) {
            Ok(node) => node,
            Err(e) => {
                return Err(e);
            }
        };
        match self.nodes_manager.get_child_by_name(parent, name) {
            Ok(Some(_)) => {
                return Err(Error::AlreadyExists);
            }
            Ok(None) => {}
            Err(e) => {
                return Err(e);
            }
        }
        let child_path = path_join(parent_node.path_ref(), name);
        match self.backend.mknod(&child_path, filetype, mode) {
            Ok(()) => {}
            Err(e) => {
                return Err(e);
            }
        }
        let node = Node::new(
            0,
            parent,
            child_path,
            mknod_attr(0, filetype, mode, rdev, uid, gid, now),
        );
        proof {
            lemma_basename_join(old(self).node_at(parent as int).path, name@);
        }
        let ghost childv = node@;
        match self.nodes_manager.add_child(parent, node) {
            AddChild::Added(i) => {
                proof {
                    assert(grown_by_child(
                        *old(self),
                        *self,
                        parent as int,
                        name@,
                        join_of(old(self).node_at(parent as int).path, name@),
                        mknod_attr_spec(0, filetype, mode, rdev, uid, gid, now),
                    ));
                }
                match self.nodes_manager.get_node_by_inode(i) {
                    Ok(created) => Ok(created),
                    Err(e) => Err(e),
                }
            }
            AddChild::Exists(_) => {
                proof {
                    assert(false);
                }
                Err(Error::Other)
            }
        }
    }

    /// Up to `size` bytes of the file `ino` starting at `offset`, clamped
    /// against the recorded size: empty exactly at end of file, out of
    /// range past it.  With `all` set the whole rest of the file is
    /// requested instead of `size`.
    pub fn read(&self, ino: u64, fh: u64, all: bool, offset: usize, size: usize) -> (r: Result<
        Vec<u8>,
        Error,
    >)
        requires
            self.wf(),
        ensures
            read_post(*self, ino, all, offset as int, size as int, r),
    {
        let node = match self.nodes_manager.get_node_by_inode(ino) {
            Ok(node) => node,
            Err(e) => {
                return Err(e);
            }
        };
        let attr = node.attr();
        if attr.size == offset as u64 {
            return Ok(Vec::new());
        }
        if attr.size < offset as u64 {
            return Err(Error::OutOfRange);
        }
        let avail = attr.size - offset as u64;
        let request: u64 = if all {
            avail
        } else if avail < size as u64 {
            avail
        } else {
            size as u64
        };
        let request_len: usize = if request > usize::MAX as u64 {
            usize::MAX
        } else {
            request as usize
        };
        self.backend.read(node.path_ref(), offset as u64, request_len)
    }

    /// The statistics of the filesystem behind a resident inode,
    /// delegated to the backend: `NotFound` exactly on non-resident
    /// inodes, and otherwise either the backend's statistics or its one
    /// possible failure, that it could not be reached.
    pub fn statfs(&self, ino: u64) -> (r: Result<Stat, Error>)
        requires
            self.wf(),
        ensures
            r == Err::<Stat, Error>(Error::NotFound) <==> !self.resident(ino as int),
            self.resident(ino as int) ==> (r is Ok || r == Err::<Stat, Error>(
                Error::BackendUnavailable,
            )),
    {
        let node = match self.nodes_manager.get_node_by_inode(ino) {
            Ok(node) => node,
            Err(e) => {
                return Err(e);
            }
        };
        self.backend.statfs(node.path_ref())
    }
}

/// The attribute block that `mknod` records for a freshly created node.
pub open spec fn mknod_attr_spec(
    ino: u64,
    filetype: FileType,
    mode: u32,
    rdev: u32,
    uid: u32,
    gid: u32,
    now: u64,
) -> FileAttr {
    FileAttr {
        ino,
        size: 4096,
        blocks: 1,
        atime: now,
        mtime: now,
        ctime: now,
        crtime: now,
        kind: filetype,
        perm: mode as u16,
        nlink: 1,
        uid,
        gid,
        rdev,
        flags: 0,
    }
}

/// Builds the attribute block that `mknod` records.
pub fn mknod_attr(ino: u64, filetype: FileType, mode: u32, rdev: u32, uid: u32, gid: u32, now: u64)
    -> (r: FileAttr)
    ensures
        r == mknod_attr_spec(ino, filetype, mode, rdev, uid, gid, now),
{
    FileAttr {
        ino,
        size: 4096,
        blocks: 1,
        atime: now,
        mtime: now,
        ctime: now,
        crtime: now,
        kind: filetype,
        perm: mode as u16,
        nlink: 1,
        uid,
        gid,
        rdev,
        flags: 0,
    }
}

/// A fresh child was recorded under `p`: the state grew by exactly the
/// node at the next inode number, carrying `path` and `attr`, indexed
/// under `name`; nothing else changed.
pub open spec fn grown_by_child<B: Backend>(
    pre: FileSystem<B>,
    post: FileSystem<B>,
    p: int,
    name: Seq<u8>,
    path: Seq<u8>,
    attr: FileAttr,
) -> bool {
    let i = pre.count();
    &&& post.count() == pre.count() + 1
    &&& post.has_child_name(p, name)
    &&& post.child_ino_by_name(p, name) == i
    &&& post.node_at(i) == (NodeView {
        inode: i as u64,
        parent: p as u64,
        path: path,
        attr: FileAttr { ino: i as u64, ..attr },
    })
    &&& post.children_of(p) == pre.children_of(p).push(i as u64)
    &&& forall|q: int| 0 <= q < pre.count() ==> #[trigger] post.node_at(q) == pre.node_at(q)
    &&& forall|q: int|
        0 <= q < pre.count() && q != p ==> #[trigger] post.children_of(q) == pre.children_of(q)
    &&& forall|q: int|
        0 <= q < pre.count() && q != p ==> #[trigger] post.nodes_manager.names_of(q)
            == pre.nodes_manager.names_of(q)
    &&& post.children_of(i) == Seq::<u64>::empty()
}

/// What `fetch_child_by_name` does: on success the backend resolved the
/// joined path and the node was recorded under the next inode number; on
/// failure nothing changed.
pub open spec fn fetch_child_post<B: Backend>(
    pre: FileSystem<B>,
    post: FileSystem<B>,
    ino: u64,
    name: Seq<u8>,
    r: Result<Node, Error>,
) -> bool {
    let p = ino as int;
    match r {
        Ok(n) => {
            &&& exists|attr: FileAttr|
                #[trigger] grown_by_child(
                    pre,
                    post,
                    p,
                    name,
                    join_of(pre.node_at(p).path, name),
                    attr,
                )
            &&& n@ == post.node_at(pre.count())
            &&& n@.inode == pre.count()
            &&& n@.attr.ino == pre.count()
            &&& post.backend == pre.backend
        }
        Err(_) => post == pre,
    }
}

/// What `lookup` does: an unknown parent reports `NotFound` and changes
/// nothing; a name-index hit returns the indexed child's attributes and
/// changes nothing; a miss resolves through the backend, either recording
/// the child and returning its attributes or reporting `NotFound` with
/// the state untouched.
pub open spec fn lookup_post<B: Backend>(
    pre: FileSystem<B>,
    post: FileSystem<B>,
    ino: u64,
    name: Seq<u8>,
    r: Result<FileAttr, Error>,
) -> bool {
    let p = ino as int;
    &&& (!pre.resident(p) ==> post == pre && r == Err::<FileAttr, Error>(Error::NotFound))
    &&& (pre.resident(p) && pre.has_child_name(p, name) ==> post == pre && r == Ok::<
        FileAttr,
        Error,
    >(pre.node_at(pre.child_ino_by_name(p, name) as int).attr))
    &&& (pre.resident(p) && !pre.has_child_name(p, name) ==> match r {
        Ok(attr) => {
            &&& (exists|a: FileAttr|
                #[trigger] grown_by_child(
                    pre,
                    post,
                    p,
                    name,
                    join_of(pre.node_at(p).path, name),
                    a,
                ))
            &&& attr == post.node_at(pre.count()).attr
            &&& attr.ino == pre.count()
            &&& post.backend == pre.backend
        }
        Err(e) => post == pre && e == Error::NotFound,
    })
}

/// What `fetch_children` does: on success some listing came back from the
/// backend, all of it unassigned, and was recorded batch-wise; on failure
/// nothing was recorded.
pub open spec fn fetch_children_post<B: Backend>(
    pre: FileSystem<B>,
    post: FileSystem<B>,
    ino: u64,
    r: Result<(), Error>,
) -> bool {
    match r {
        Ok(_) => {
            &&& exists|fetched: Seq<Node>|
                {
                    &&& #[trigger] batch_add_post(
                        pre.nodes_manager,
                        post.nodes_manager,
                        ino as int,
                        fetched,
                    )
                    &&& forall|k: int| 0 <= k < fetched.len() ==> unassigned((#[trigger] fetched[k])@)
                }
            &&& post.backend == pre.backend
        }
        Err(_) => post.nodes_manager == pre.nodes_manager,
    }
}

/// What `readdir` does: an unknown parent reports `NotFound`; a parent
/// with recorded children (or any non-zero offset) is answered from the
/// recorded state, which does not change; an empty parent at offset zero
/// is populated from the backend and then answered, and a backend failure
/// leaves the recorded state untouched.
pub open spec fn readdir_post<B: Backend>(
    pre: FileSystem<B>,
    post: FileSystem<B>,
    ino: u64,
    offset: int,
    r: Result<Vec<Node>, Error>,
) -> bool {
    let p = ino as int;
    &&& (!pre.resident(p) ==> post == pre && r == Err::<Vec<Node>, Error>(Error::NotFound))
    &&& (pre.resident(p) && !(offset == 0 && pre.children_of(p).len() == 0) ==> post == pre && (
    r matches Ok(v) && children_window(
        pre.nodes_manager,
        p,
        offset,
        READDIR_PAGE_LIMIT as int,
        v@,
    )))
    &&& (pre.resident(p) && offset == 0 && pre.children_of(p).len() == 0 ==> match r {
        Ok(v) => {
            &&& fetch_children_post(pre, post, ino, Ok::<(), Error>(()))
            &&& children_window(
                post.nodes_manager,
                p,
                offset,
                READDIR_PAGE_LIMIT as int,
                v@,
            )
        }
        Err(_) => post.nodes_manager == pre.nodes_manager,
    })
}

/// What `mknod` does: an unknown parent or an already indexed basename is
/// rejected without touching anything — in particular the backend is not
/// asked to create anything twice; otherwise the backend creates the node
/// and the facade records it with the requested kind, permissions, owner
/// and the given wall time.
pub open spec fn mknod_post<B: Backend>(
    pre: FileSystem<B>,
    post: FileSystem<B>,
    parent: u64,
    name: Seq<u8>,
    filetype: FileType,
    mode: u32,
    rdev: u32,
    uid: u32,
    gid: u32,
    now: u64,
    r: Result<Node, Error>,
) -> bool {
    let p = parent as int;
    &&& (!pre.resident(p) ==> post == pre && r == Err::<Node, Error>(Error::NotFound))
    &&& (pre.resident(p) && pre.has_child_name(p, name) ==> post == pre && r == Err::<
        Node,
        Error,
    >(Error::AlreadyExists))
    &&& (pre.resident(p) && !pre.has_child_name(p, name) ==> match r {
        Ok(n) => {
            &&& grown_by_child(
                pre,
                post,
                p,
                name,
                join_of(pre.node_at(p).path, name),
                mknod_attr_spec(0, filetype, mode, rdev, uid, gid, now),
            )
            &&& n@ == post.node_at(pre.count())
            &&& n@.inode == pre.count()
            &&& n@.attr == mknod_attr_spec(
                pre.count() as u64,
                filetype,
                mode,
                rdev,
                uid,
                gid,
                now,
            )
        }
        Err(_) => post.nodes_manager == pre.nodes_manager,
    })
}

/// What `read` does: an unknown inode reports `NotFound`; against the
/// recorded size `S`, reading at `S` yields zero bytes without asking the
/// backend, reading past `S` is out of range, and any other read hands
/// back what the backend returned for the clamped request — never more
/// than `min(size, S - offset)` bytes (`S - offset` with `all` set).
pub open spec fn read_post<B: Backend>(
    fs: FileSystem<B>,
    ino: u64,
    all: bool,
    offset: int,
    size: int,
    r: Result<Vec<u8>, Error>,
) -> bool {
    let p = ino as int;
    let s = fs.node_at(p).attr.size as int;
    &&& (!fs.resident(p) ==> r == Err::<Vec<u8>, Error>(Error::NotFound))
    &&& (fs.resident(p) && offset == s ==> (r matches Ok(d) && d@.len() == 0))
    &&& (fs.resident(p) && offset > s ==> r == Err::<Vec<u8>, Error>(Error::OutOfRange))
    &&& (fs.resident(p) && offset < s ==> (r matches Ok(d) ==> d@.len() <= (if all {
        s - offset
    } else if size <= s - offset {
        size
    } else {
        s - offset
    })))
}

/// Law: looking a name up a second time returns the same attributes and
/// creates no duplicate.  A first successful lookup leaves the name
/// indexed, so the second call is a pure index hit: it returns the very
/// attributes the first call returned and leaves the state — the name
/// index included — exactly as it was.
pub proof fn lemma_lookup_idempotent<B: Backend>(
    s0: FileSystem<B>,
    s1: FileSystem<B>,
    s2: FileSystem<B>,
    ino: u64,
    name: Seq<u8>,
    r1: Result<FileAttr, Error>,
    r2: Result<FileAttr, Error>,
)
    requires
        lookup_post(s0, s1, ino, name, r1),
        lookup_post(s1, s2, ino, name, r2),
        r1 is Ok,
    ensures
        r2 == r1,
        s2 == s1,
{
    let p = ino as int;
    if !s0.resident(p) {
        assert(false);
    } else if s0.has_child_name(p, name) {
        assert(s1 == s0);
        assert(r2 == r1);
    } else {
        let a = choose|a: FileAttr|
            grown_by_child(s0, s1, p, name, join_of(s0.node_at(p).path, name), a);
        assert(s1.has_child_name(p, name));
        assert(s1.resident(p));
        assert(r2 == Ok::<FileAttr, Error>(s1.node_at(s1.child_ino_by_name(p, name) as int).attr));
    }
}

/// Law: a second directory listing of the same parent at offset zero
/// returns the same entries in the same order, provided the first call
/// left children recorded (a parent whose backend listing was empty stays
/// unrecorded and is listed afresh each time).
pub proof fn lemma_readdir_stable<B: Backend>(
    s0: FileSystem<B>,
    s1: FileSystem<B>,
    s2: FileSystem<B>,
    ino: u64,
    r1: Result<Vec<Node>, Error>,
    r2: Result<Vec<Node>, Error>,
)
    requires
        readdir_post(s0, s1, ino, 0, r1),
        readdir_post(s1, s2, ino, 0, r2),
        r1 is Ok,
        s1.resident(ino as int),
        s1.children_of(ino as int).len() > 0,
    ensures
        s2 == s1,
        r2 is Ok,
        r1->Ok_0@.len() == r2->Ok_0@.len(),
        forall|k: int| 0 <= k < r1->Ok_0@.len() ==> (#[trigger] r1->Ok_0@[k])@ == r2->Ok_0@[k]@,
{
    let p = ino as int;
    assert(s0.resident(p));
    if !(0 == 0 && s0.children_of(p).len() == 0) {
        assert(s1 == s0);
    }
    assert(children_window(
        s1.nodes_manager,
        p,
        0,
        READDIR_PAGE_LIMIT as int,
        r1->Ok_0@,
    ));
    assert(s2 == s1);
    assert(children_window(
        s1.nodes_manager,
        p,
        0,
        READDIR_PAGE_LIMIT as int,
        r2->Ok_0@,
    ));
}

/// Law: after a successful creation, looking the new name up returns
/// attributes whose inode number is exactly the one the creation
/// reported.
pub proof fn lemma_mknod_then_lookup<B: Backend>(
    s0: FileSystem<B>,
    s1: FileSystem<B>,
    s2: FileSystem<B>,
    parent: u64,
    name: Seq<u8>,
    filetype: FileType,
    mode: u32,
    rdev: u32,
    uid: u32,
    gid: u32,
    now: u64,
    n: Node,
    r2: Result<FileAttr, Error>,
)
    requires
        mknod_post(
            s0,
            s1,
            parent,
            name,
            filetype,
            mode,
            rdev,
            uid,
            gid,
            now,
            Ok(n),
        ),
        lookup_post(s1, s2, parent, name, r2),
    ensures
        s2 == s1,
        r2 == Ok::<FileAttr, Error>(n@.attr),
        r2->Ok_0.ino == n@.inode,
{
    let p = parent as int;
    assert(s0.resident(p));
    assert(!s0.has_child_name(p, name));
    assert(s1.has_child_name(p, name));
    assert(s1.child_ino_by_name(p, name) == s0.count());
    assert(s1.resident(p));
    assert(r2 == Ok::<FileAttr, Error>(s1.node_at(s0.count()).attr));
}

/// Law: a directory listing at an offset at or past the recorded child
/// count succeeds with an empty page.
pub proof fn lemma_readdir_past_end<B: Backend>(
    s0: FileSystem<B>,
    s1: FileSystem<B>,
    ino: u64,
    offset: int,
    r: Result<Vec<Node>, Error>,
)
    requires
        readdir_post(s0, s1, ino, offset, r),
        s0.resident(ino as int),
        offset >= s0.children_of(ino as int).len(),
        offset > 0,
    ensures
        s1 == s0,
        r is Ok,
        r->Ok_0@.len() == 0,
{
    let p = ino as int;
    assert(children_window(
        s0.nodes_manager,
        p,
        offset,
        READDIR_PAGE_LIMIT as int,
        r->Ok_0@,
    ));
}

} // verus!
