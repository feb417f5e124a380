//! The inode manager: the sharded tree plus a name index from
//! (parent inode, entry basename) to child inode, kept in lockstep with the
//! tree, and the allocation of fresh inode numbers.

use vstd::prelude::*;
use crate::bytes::{basename, basename_of, bytes_eq};
use crate::error::Error;
use crate::node::Node;
use crate::node::NodeView;
use crate::tree::Tree;

verus! {

/// One entry of the name index: a basename and the child inode it names.
#[derive(Debug)]
pub struct NameEntry {
    pub name: Vec<u8>,
    pub ino: u64,
}

/// What an attempt to add a child came to: either the child was inserted
/// under a fresh inode number, or an entry of the same basename already
/// existed and the insertion was rejected.
#[derive(Clone, Copy, Debug, PartialEq, Eq, Structural)]
pub enum AddChild {
    Added(u64),
    Exists(u64),
}

/// The manager.  `children_name` is indexed by parent inode, in lockstep
/// with the tree: the entry at position `j` of `children_name[p]` names the
/// child at position `j` of the tree's child list of `p`.
#[derive(Debug)]
pub struct InodeManager {
    pub nodes_tree: Tree,
    pub children_name: Vec<Vec<NameEntry>>,
}

impl InodeManager {
    /// How many inode slots are in use (the placeholder at zero included),
    /// which is also the next inode number to be assigned.
    pub open spec fn count(self) -> int {
        self.nodes_tree.count()
    }

    /// Whether inode `i` is resident.
    pub open spec fn resident(self, i: int) -> bool {
        self.nodes_tree.resident(i)
    }

    /// The name-index entries of parent `p`.
    pub open spec fn names_of(self, p: int) -> Seq<NameEntry> {
        self.children_name@[p]@
    }

    /// Whether the name index has an entry `name` under parent `p`.
    pub open spec fn has_child_name(self, p: int, name: Seq<u8>) -> bool {
        exists|j: int| 0 <= j < self.names_of(p).len() && self.names_of(p)[j].name@ == name
    }

    /// The position of `name` in the index of parent `p`.
    pub open spec fn name_slot(self, p: int, name: Seq<u8>) -> int {
        choose|j: int| 0 <= j < self.names_of(p).len() && self.names_of(p)[j].name@ == name
    }

    /// The child inode that `name` resolves to under parent `p`.
    pub open spec fn child_ino_by_name(self, p: int, name: Seq<u8>) -> u64 {
        self.names_of(p)[self.name_slot(p, name)].ino
    }

    /// Well-formedness: the tree is well-formed, the name index has one
    /// list per inode slot, each list mirrors the tree's child list of its
    /// parent entry by entry (same child inode, and the name is the
    /// basename of that child's path), and basenames are unique within a
    /// parent.
    pub open spec fn wf(self) -> bool {
        &&& self.nodes_tree.wf()
        &&& self.children_name@.len() == self.count()
        &&& forall|p: int|
            0 <= p < self.count() ==> (#[trigger] self.names_of(p)).len()
                == self.nodes_tree.children_of(p).len()
        &&& forall|p: int, j: int|
            0 <= p < self.count() && 0 <= j < self.names_of(p).len() ==> {
                let e = #[trigger] self.names_of(p)[j];
                &&& e.ino == self.nodes_tree.children_of(p)[j]
                &&& e.name@ == basename_of(self.nodes_tree.node_at(e.ino as int).path)
            }
        &&& forall|p: int, j1: int, j2: int|
            0 <= p < self.count() && 0 <= j1 < j2 < self.names_of(p).len()
                ==> (#[trigger] self.names_of(p)[j1]).name@ != (#[trigger] self.names_of(
                p,
            )[j2]).name@
    }

    /// When `name` stands at position `j` of the index of `p`, it stands
    /// nowhere else, and the lookup functions resolve to that entry.
    pub proof fn lemma_name_slot(self, p: int, name: Seq<u8>, j: int)
        requires
            self.wf(),
            0 <= p < self.count(),
            0 <= j < self.names_of(p).len(),
            self.names_of(p)[j].name@ == name,
        ensures
            self.has_child_name(p, name),
            self.name_slot(p, name) == j,
            self.child_ino_by_name(p, name) == self.names_of(p)[j].ino,
    {
        assert(self.has_child_name(p, name));
        let j2 = self.name_slot(p, name);
        if j2 != j {
            if j2 < j {
                assert(self.names_of(p)[j2].name@ != self.names_of(p)[j].name@);
            } else {
                assert(self.names_of(p)[j].name@ != self.names_of(p)[j2].name@);
            }
        }
    }

    /// Builds a manager holding the root alone.
    pub fn new(root: Node) -> (r: InodeManager)
        requires
            root@.inode == 1,
            root@.parent == 1,
            root@.attr.ino == 1,
        ensures
            r.wf(),
            r.count() == 2,
            r.nodes_tree.node_at(1) == root@,
            r.nodes_tree.children_of(1) == Seq::<u64>::empty(),
            r.names_of(1) == Seq::<NameEntry>::empty(),
    {
        let nodes_tree = Tree::new(root);
        let mut children_name: Vec<Vec<NameEntry>> = Vec::new();
        children_name.push(Vec::new());
        children_name.push(Vec::new());
        InodeManager { nodes_tree, children_name }
    }

    /// The next inode number that an insertion would assign.
    pub fn next_inode(&self) -> (r: u64)
        requires
            self.wf(),
        ensures
            r == self.count(),
    {
        self.nodes_tree.len() as u64
    }

    /// A copy of the node stored for an inode, or `NotFound`.
    pub fn get_node_by_inode(&self, ino: u64) -> (r: Result<Node, Error>)
        requires
            self.wf(),
        ensures
            self.resident(ino as int) ==> (r matches Ok(n)
                && n@ == self.nodes_tree.node_at(ino as int)),
            !self.resident(ino as int) ==> r == Err::<Node, Error>(Error::NotFound),
    {
        if ino >= 1 && ino < self.nodes_tree.len() as u64 {
            Ok(self.nodes_tree.get(ino))
        } else {
            Err(Error::NotFound)
        }
    }

    /// The child of `ino` whose basename is `name`, resolved through the
    /// name index, or `None` when the index has no such entry; `NotFound`
    /// when `ino` itself is not resident.
    pub fn get_child_by_name(&self, ino: u64, name: &Vec<u8>) -> (r: Result<Option<Node>, Error>)
        requires
            self.wf(),
        ensures
            !self.resident(ino as int) ==> r == Err::<Option<Node>, Error>(Error::NotFound),
            self.resident(ino as int) ==> match r {
                Ok(Some(n)) => {
                    &&& self.has_child_name(ino as int, name@)
                    &&& n@ == self.nodes_tree.node_at(
                        self.child_ino_by_name(ino as int, name@) as int,
                    )
                    &&& n@.parent == ino
                    &&& basename_of(n@.path) == name@
                    &&& self.resident(n@.inode as int)
                    &&& n@.attr.ino == n@.inode
                }
                Ok(None) => !self.has_child_name(ino as int, name@),
                Err(_) => false,
            },
    {
        if !(ino >= 1 && ino < self.nodes_tree.len() as u64) {
            return Err(Error::NotFound);
        }
        let entries = &self.children_name[ino as usize];
        match find_name(entries, name) {
            Some(j) => {
                let child_ino = entries[j].ino;
                proof {
                    self.lemma_name_slot(ino as int, name@, j as int);
                }
                let child = self.nodes_tree.get(child_ino);
                Ok(Some(child))
            }
            None => Ok(None),
        }
    }

    /// The window `[offset, offset + limit)` of the children of `ino` (the
    /// whole remainder when `limit` is not positive), resolved to node
    /// copies; `None` signals "nothing recorded, ask the backend" and comes
    /// exactly when `check_empty` is set, the offset is zero and no child
    /// is recorded; `NotFound` when `ino` is not resident.
    pub fn get_children_by_index(
        &self,
        ino: u64,
        offset: usize,
        limit: i64,
        check_empty: bool,
    ) -> (r: Result<Option<Vec<Node>>, Error>)
        requires
            self.wf(),
        ensures
            !self.resident(ino as int) ==> r == Err::<Option<Vec<Node>>, Error>(Error::NotFound),
            self.resident(ino as int) ==> match r {
                Ok(None) => check_empty && offset == 0 && self.nodes_tree.children_of(
                    ino as int,
                ).len() == 0,
                Ok(Some(v)) => {
                    &&& !(check_empty && offset == 0 && self.nodes_tree.children_of(
                        ino as int,
                    ).len() == 0)
                    &&& children_window(*self, ino as int, offset as int, limit as int, v@)
                }
                Err(_) => false,
            },
    {
        if !(ino >= 1 && ino < self.nodes_tree.len() as u64) {
            return Err(Error::NotFound);
        }
        let child_count = self.children_name[ino as usize].len();
        proof {
            assert(self.names_of(ino as int).len() == self.nodes_tree.children_of(
                ino as int,
            ).len());
        }
        if check_empty && offset == 0 && child_count == 0 {
            return Ok(None);
        }
        let eff: usize = if limit <= 0 {
            child_count
        } else if (limit as u64) > (child_count as u64) {
            child_count
        } else {
            (limit as u64) as usize
        };
        let v = self.nodes_tree.children(ino, offset, eff);
        Ok(Some(v))
    }

    /// Adds `child` under `parent_ino`, unless an entry of the same
    /// basename is already indexed there; then the insertion is rejected
    /// and the existing child inode is reported instead.
    #[verifier::rlimit(100)]
    pub fn add_child(&mut self, parent_ino: u64, child: Node) -> (r: AddChild)
        requires
            old(self).wf(),
            old(self).resident(parent_ino as int),
            old(self).count() < usize::MAX,
        ensures
            final(self).wf(),
            add_child_post(*old(self), *final(self), parent_ino as int, child@, r),
    {
        let ghost pre = *self;
        let name = basename(child.path_ref());
        let found = {
            let entries = &self.children_name[parent_ino as usize];
            find_name(entries, &name)
        };
        match found {
            Some(j) => {
                let c = self.children_name[parent_ino as usize][j].ino;
                proof {
                    self.lemma_name_slot(parent_ino as int, name@, j as int);
                }
                AddChild::Exists(c)
            }
            None => {
                let ghost childv = child@;
                let ghost gname = name@;
                let ino = self.nodes_tree.insert(parent_ino, child);
                self.children_name.push(Vec::new());
                self.children_name[parent_ino as usize].push(NameEntry { name, ino });
                proof {
                    let post = *self;
                    let p = parent_ino as int;
                    assert(post.names_of(p) == pre.names_of(p).push(post.names_of(p).last()));
                    assert(post.names_of(p).last().name@ == gname);
                    assert(post.names_of(p).last().ino == ino);
                    assert(post.children_name@[ino as int]@ =~= Seq::<NameEntry>::empty());
                    lemma_add_child_added(pre, post, p, childv, ino);
                }
                AddChild::Added(ino)
            }
        }
    }
}

impl InodeManager {
    /// Adds a whole backend listing under `parent_ino`, in order.  Entries
    /// whose basename is already indexed — against the existing index or
    /// by an earlier entry of the same batch — are skipped.
    pub fn batch_add_children(&mut self, parent_ino: u64, children: Vec<Node>)
        requires
            old(self).wf(),
            old(self).resident(parent_ino as int),
            old(self).count() + children@.len() <= usize::MAX,
        ensures
            final(self).wf(),
            batch_add_post(*old(self), *final(self), parent_ino as int, children@),
    {
        let ghost pre = *self;
        let ghost p = parent_ino as int;
        proof {
            lemma_batch_init(pre, p, children@);
        }
        let mut k: usize = 0;
        while k < children.len()
            invariant
                k <= children@.len(),
                1 <= parent_ino,
                p == parent_ino as int,
                batch_loop_inv(pre, *self, p, children@, k as int),
            decreases children@.len() - k,
        {
            proof {
                lemma_batch_inv_opens(pre, *self, p, children@, k as int);
            }
            let ghost cur = *self;
            let child = children[k].clone();
            let r = self.add_child(parent_ino, child);
            proof {
                lemma_batch_step(pre, cur, *self, p, children@, k as int, r);
            }
            k = k + 1;
        }
        proof {
            lemma_batch_done(pre, *self, p, children@);
        }
    }
}

/// The invariant that `batch_add_children` carries from entry to entry:
/// the first `k` batch entries are accounted for, everything recorded
/// before the batch is untouched, and a fresh batch has been appended
/// exactly.  Opaque so that the loop itself stays cheap; the lemmas below
/// establish, advance and consume it.
#[verifier::opaque]
pub open spec fn batch_loop_inv(
    pre: InodeManager,
    cur: InodeManager,
    p: int,
    cs: Seq<Node>,
    k: int,
) -> bool {
    &&& pre.wf()
    &&& cur.wf()
    &&& 1 <= p < pre.count()
    &&& pre.count() + cs.len() <= usize::MAX
    &&& 0 <= k <= cs.len()
    &&& pre.count() <= cur.count() <= pre.count() + k
    &&& forall|q: int|
        0 <= q < pre.count() ==> #[trigger] cur.nodes_tree.node_at(q) == pre.nodes_tree.node_at(q)
    &&& forall|q: int|
        0 <= q < pre.count() && q != p ==> #[trigger] cur.nodes_tree.children_of(q)
            == pre.nodes_tree.children_of(q)
    &&& forall|q: int| 0 <= q < pre.count() && q != p ==> #[trigger] cur.names_of(q) == pre.names_of(q)
    &&& cur.names_of(p).len() >= pre.names_of(p).len()
    &&& forall|j: int|
        0 <= j < pre.names_of(p).len() ==> #[trigger] cur.names_of(p)[j] == pre.names_of(p)[j]
    &&& cur.nodes_tree.children_of(p).len() >= pre.nodes_tree.children_of(p).len()
    &&& forall|j: int|
        0 <= j < pre.nodes_tree.children_of(p).len() ==> #[trigger] cur.nodes_tree.children_of(
            p,
        )[j] == pre.nodes_tree.children_of(p)[j]
    &&& forall|m: int|
        0 <= m < k ==> cur.has_child_name(p, basename_of((#[trigger] cs[m])@.path))
    &&& (batch_names_fresh(pre, p, cs) ==> batch_prefix_appended(pre, cur, p, cs, k))
}

/// The invariant holds before the first batch entry.
proof fn lemma_batch_init(pre: InodeManager, p: int, cs: Seq<Node>)
    requires
        pre.wf(),
        pre.resident(p),
        pre.count() + cs.len() <= usize::MAX,
    ensures
        batch_loop_inv(pre, pre, p, cs, 0),
{
    reveal(batch_loop_inv);
}

/// What the loop body needs from the invariant before it can call
/// `add_child` on the next entry.
proof fn lemma_batch_inv_opens(pre: InodeManager, cur: InodeManager, p: int, cs: Seq<Node>, k: int)
    requires
        batch_loop_inv(pre, cur, p, cs, k),
        k < cs.len(),
    ensures
        cur.wf(),
        cur.resident(p),
        cur.count() < usize::MAX,
{
    reveal(batch_loop_inv);
}

/// After one `add_child` call on the `k`-th batch entry, everything
/// recorded before the batch is still untouched.
#[verifier::rlimit(100)]
proof fn lemma_batch_step_frames(
    pre: InodeManager,
    cur: InodeManager,
    post: InodeManager,
    p: int,
    cs: Seq<Node>,
    k: int,
    r: AddChild,
)
    requires
        batch_loop_inv(pre, cur, p, cs, k),
        0 <= k < cs.len(),
        add_child_post(cur, post, p, cs[k]@, r),
    ensures
        pre.count() <= post.count() <= pre.count() + k + 1,
        forall|q: int|
            0 <= q < pre.count() ==> #[trigger] post.nodes_tree.node_at(q)
                == pre.nodes_tree.node_at(q),
        forall|q: int|
            0 <= q < pre.count() && q != p ==> #[trigger] post.nodes_tree.children_of(q)
                == pre.nodes_tree.children_of(q),
        forall|q: int| 0 <= q < pre.count() && q != p ==> #[trigger] post.names_of(q) == pre.names_of(q),
        post.names_of(p).len() >= pre.names_of(p).len(),
        forall|j: int|
            0 <= j < pre.names_of(p).len() ==> #[trigger] post.names_of(p)[j] == pre.names_of(
                p,
            )[j],
        post.nodes_tree.children_of(p).len() >= pre.nodes_tree.children_of(p).len(),
        forall|j: int|
            0 <= j < pre.nodes_tree.children_of(p).len() ==> #[trigger] post.nodes_tree.children_of(
                p,
            )[j] == pre.nodes_tree.children_of(p)[j],
{
    reveal(batch_loop_inv);
    if r is Added {
        assert forall|j: int| 0 <= j < pre.names_of(p).len() implies #[trigger] post.names_of(
            p,
        )[j] == pre.names_of(p)[j] by {
            assert(post.names_of(p)[j] == cur.names_of(p)[j]);
        }
        assert forall|j: int|
            0 <= j < pre.nodes_tree.children_of(p).len() implies #[trigger] post.nodes_tree.children_of(
            p,
        )[j] == pre.nodes_tree.children_of(p)[j] by {
            assert(post.nodes_tree.children_of(p)[j] == cur.nodes_tree.children_of(p)[j]);
        }
    }
}

/// After one `add_child` call on the `k`-th batch entry, every batch
/// basename seen so far is indexed.
#[verifier::rlimit(100)]
proof fn lemma_batch_step_names(
    pre: InodeManager,
    cur: InodeManager,
    post: InodeManager,
    p: int,
    cs: Seq<Node>,
    k: int,
    r: AddChild,
)
    requires
        batch_loop_inv(pre, cur, p, cs, k),
        0 <= k < cs.len(),
        add_child_post(cur, post, p, cs[k]@, r),
    ensures
        forall|m: int|
            0 <= m < k + 1 ==> post.has_child_name(p, basename_of((#[trigger] cs[m])@.path)),
{
    reveal(batch_loop_inv);
    assert forall|m: int| 0 <= m < k + 1 implies post.has_child_name(
        p,
        basename_of((#[trigger] cs[m])@.path),
    ) by {
        if m < k {
            let bm = basename_of(cs[m]@.path);
            let j = choose|j: int|
                0 <= j < cur.names_of(p).len() && cur.names_of(p)[j].name@ == bm;
            if r is Added {
                assert(post.names_of(p)[j] == cur.names_of(p)[j]);
            }
            assert(post.names_of(p)[j].name@ == bm);
        }
    }
}

/// In a fresh batch, the `k`-th basename is not yet indexed when its turn
/// comes: it was neither indexed before the batch nor by an earlier entry.
#[verifier::rlimit(100)]
proof fn lemma_fresh_not_present(pre: InodeManager, cur: InodeManager, p: int, cs: Seq<Node>, k: int)
    requires
        batch_loop_inv(pre, cur, p, cs, k),
        batch_names_fresh(pre, p, cs),
        0 <= k < cs.len(),
    ensures
        !cur.has_child_name(p, basename_of(cs[k]@.path)),
{
    reveal(batch_loop_inv);
    let bn = basename_of(cs[k]@.path);
    if cur.has_child_name(p, bn) {
        let j = choose|j: int| 0 <= j < cur.names_of(p).len() && cur.names_of(p)[j].name@ == bn;
        if j < pre.names_of(p).len() {
            assert(pre.names_of(p)[j].name@ == bn);
            assert(pre.has_child_name(p, bn));
            assert(false);
        } else {
            assert(batch_prefix_appended(pre, cur, p, cs, k));
            let m = j - pre.names_of(p).len();
            assert(0 <= m < k);
            assert(j == pre.names_of(p).len() + m);
            assert((cur.names_of(p)[pre.names_of(p).len() + m]).name@ == basename_of(
                cs[m]@.path,
            ));
            assert(basename_of(cs[m]@.path) != basename_of(cs[k as int]@.path));
            assert(false);
        }
    }
}

/// An insertion of the `k`-th batch entry extends the exact-append
/// pattern by one.
#[verifier::rlimit(100)]
proof fn lemma_appended_extend(
    pre: InodeManager,
    cur: InodeManager,
    post: InodeManager,
    p: int,
    cs: Seq<Node>,
    k: int,
    i: u64,
)
    requires
        batch_prefix_appended(pre, cur, p, cs, k),
        0 <= k < cs.len(),
        add_child_post(cur, post, p, cs[k]@, AddChild::Added(i)),
    ensures
        batch_prefix_appended(pre, post, p, cs, k + 1),
{
    assert(i == cur.count());
    assert forall|m: int|
        0 <= m < k + 1 implies #[trigger] post.nodes_tree.node_at(pre.count() + m) == (NodeView {
        inode: (pre.count() + m) as u64,
        parent: p as u64,
        path: cs[m]@.path,
        attr: crate::node::FileAttr { ino: (pre.count() + m) as u64, ..cs[m]@.attr },
    }) by {
        if m < k {
            assert(post.nodes_tree.node_at(pre.count() + m) == cur.nodes_tree.node_at(
                pre.count() + m,
            ));
        }
    }
    assert forall|m: int|
        0 <= m < k + 1 implies #[trigger] post.nodes_tree.children_of(
        p,
    )[pre.nodes_tree.children_of(p).len() + m] == pre.count() + m by {
        if m < k {
            assert(post.nodes_tree.children_of(p)[pre.nodes_tree.children_of(p).len() + m]
                == cur.nodes_tree.children_of(p)[pre.nodes_tree.children_of(p).len() + m]);
        } else {
            assert(post.nodes_tree.children_of(p) == cur.nodes_tree.children_of(p).push(i));
            assert(post.nodes_tree.children_of(p)[pre.nodes_tree.children_of(p).len() + m]
                == i);
        }
    }
    assert forall|m: int|
        0 <= m < k + 1 implies (#[trigger] post.names_of(p)[pre.names_of(p).len() + m]).name@
        == basename_of(cs[m]@.path) && post.names_of(p)[pre.names_of(p).len() + m].ino
        == pre.count() + m by {
        if m < k {
            assert(post.names_of(p)[pre.names_of(p).len() + m] == cur.names_of(p)[pre.names_of(
                p,
            ).len() + m]);
        } else {
            assert(pre.names_of(p).len() + m == post.names_of(p).len() - 1);
            assert(post.names_of(p).last().ino == i);
        }
    }
}

/// After one `add_child` call on the `k`-th entry of a fresh batch, the
/// call must have inserted, extending the exact-append pattern by one.
proof fn lemma_batch_step_fresh(
    pre: InodeManager,
    cur: InodeManager,
    post: InodeManager,
    p: int,
    cs: Seq<Node>,
    k: int,
    r: AddChild,
)
    requires
        batch_loop_inv(pre, cur, p, cs, k),
        0 <= k < cs.len(),
        add_child_post(cur, post, p, cs[k]@, r),
        batch_names_fresh(pre, p, cs),
    ensures
        batch_prefix_appended(pre, post, p, cs, k + 1),
{
    lemma_fresh_not_present(pre, cur, p, cs, k);
    match r {
        AddChild::Exists(_) => {
            assert(cur.has_child_name(p, basename_of(cs[k]@.path)));
            assert(false);
        }
        AddChild::Added(i) => {
            assert(batch_prefix_appended(pre, cur, p, cs, k)) by {
                reveal(batch_loop_inv);
            }
            lemma_appended_extend(pre, cur, post, p, cs, k, i);
        }
    }
}

/// One `add_child` call on the `k`-th batch entry advances the invariant.
#[verifier::rlimit(100)]
proof fn lemma_batch_step(
    pre: InodeManager,
    cur: InodeManager,
    post: InodeManager,
    p: int,
    cs: Seq<Node>,
    k: int,
    r: AddChild,
)
    requires
        batch_loop_inv(pre, cur, p, cs, k),
        0 <= k < cs.len(),
        post.wf(),
        add_child_post(cur, post, p, cs[k]@, r),
    ensures
        batch_loop_inv(pre, post, p, cs, k + 1),
{
    lemma_batch_step_frames(pre, cur, post, p, cs, k, r);
    lemma_batch_step_names(pre, cur, post, p, cs, k, r);
    if batch_names_fresh(pre, p, cs) {
        lemma_batch_step_fresh(pre, cur, post, p, cs, k, r);
    }
    reveal(batch_loop_inv);
}

/// When the batch is exhausted the invariant gives the advertised
/// postcondition.
proof fn lemma_batch_done(pre: InodeManager, post: InodeManager, p: int, cs: Seq<Node>)
    requires
        batch_loop_inv(pre, post, p, cs, cs.len() as int),
    ensures
        post.wf(),
        batch_add_post(pre, post, p, cs),
{
    reveal(batch_loop_inv);
}

/// No entry of the batch is already indexed under `p`, and no two entries
/// of the batch share a basename.
pub open spec fn batch_names_fresh(pre: InodeManager, p: int, cs: Seq<Node>) -> bool {
    &&& forall|k: int|
        0 <= k < cs.len() ==> !pre.has_child_name(p, basename_of((#[trigger] cs[k])@.path))
    &&& forall|k1: int, k2: int|
        0 <= k1 < k2 < cs.len() ==> basename_of((#[trigger] cs[k1])@.path) != basename_of(
            (#[trigger] cs[k2])@.path,
        )
}

/// The first `k` entries of the batch were appended one to one: they took
/// the inode numbers `pre.count()`, `pre.count() + 1`, ... in batch order,
/// extending the parent's child list and name index accordingly.
pub open spec fn batch_prefix_appended(
    pre: InodeManager,
    cur: InodeManager,
    p: int,
    cs: Seq<Node>,
    k: int,
) -> bool {
    &&& cur.count() == pre.count() + k
    &&& cur.nodes_tree.children_of(p).len() == pre.nodes_tree.children_of(p).len() + k
    &&& forall|m: int|
        0 <= m < k ==> #[trigger] cur.nodes_tree.children_of(p)[pre.nodes_tree.children_of(
            p,
        ).len() + m] == pre.count() + m
    &&& forall|m: int|
        0 <= m < k ==> #[trigger] cur.nodes_tree.node_at(pre.count() + m) == (NodeView {
            inode: (pre.count() + m) as u64,
            parent: p as u64,
            path: cs[m]@.path,
            attr: crate::node::FileAttr { ino: (pre.count() + m) as u64, ..cs[m]@.attr },
        })
    &&& cur.names_of(p).len() == pre.names_of(p).len() + k
    &&& forall|m: int|
        0 <= m < k ==> (#[trigger] cur.names_of(p)[pre.names_of(p).len() + m]).name@
            == basename_of(cs[m]@.path) && cur.names_of(p)[pre.names_of(p).len() + m].ino
            == pre.count() + m
}

/// What `batch_add_children` does: the state only grows, nothing outside
/// the parent's lists changes, what was recorded stays where it was, every
/// batch basename is indexed afterwards, and a batch of fresh, pairwise
/// distinct basenames is appended exactly, in order.
pub open spec fn batch_add_post(
    pre: InodeManager,
    post: InodeManager,
    p: int,
    cs: Seq<Node>,
) -> bool {
    &&& post.wf()
    &&& pre.count() <= post.count() <= pre.count() + cs.len()
    &&& forall|q: int|
        0 <= q < pre.count() ==> #[trigger] post.nodes_tree.node_at(q) == pre.nodes_tree.node_at(
            q,
        )
    &&& forall|q: int|
        0 <= q < pre.count() && q != p ==> #[trigger] post.nodes_tree.children_of(q)
            == pre.nodes_tree.children_of(q)
    &&& forall|q: int| 0 <= q < pre.count() && q != p ==> #[trigger] post.names_of(q) == pre.names_of(q)
    &&& post.nodes_tree.children_of(p).len() >= pre.nodes_tree.children_of(p).len()
    &&& forall|j: int|
        0 <= j < pre.nodes_tree.children_of(p).len() ==> #[trigger] post.nodes_tree.children_of(
            p,
        )[j] == pre.nodes_tree.children_of(p)[j]
    &&& forall|j: int|
        0 <= j < pre.names_of(p).len() ==> #[trigger] post.names_of(p)[j] == pre.names_of(p)[j]
    &&& forall|m: int|
        0 <= m < cs.len() ==> post.has_child_name(p, basename_of((#[trigger] cs[m])@.path))
    &&& (batch_names_fresh(pre, p, cs) ==> batch_prefix_appended(
        pre,
        post,
        p,
        cs,
        cs.len() as int,
    ))
}

/// What `add_child` does: on `Exists` the state is untouched and the
/// reported inode is the indexed one; on `Added` the child is inserted
/// under the next inode number, the parent's child list and name index grow
/// by exactly this entry, and everything else is unchanged.
pub open spec fn add_child_post(
    pre: InodeManager,
    post: InodeManager,
    p: int,
    child: NodeView,
    r: AddChild,
) -> bool {
    match r {
        AddChild::Exists(c) => {
            &&& post == pre
            &&& pre.has_child_name(p, basename_of(child.path))
            &&& c == pre.child_ino_by_name(p, basename_of(child.path))
        }
        AddChild::Added(i) => {
            &&& !pre.has_child_name(p, basename_of(child.path))
            &&& i == pre.count()
            &&& post.count() == pre.count() + 1
            &&& post.nodes_tree.node_at(i as int) == (NodeView {
                inode: i,
                parent: p as u64,
                path: child.path,
                attr: crate::node::FileAttr { ino: i, ..child.attr },
            })
            &&& post.nodes_tree.children_of(p) == pre.nodes_tree.children_of(p).push(i)
            &&& post.names_of(p).len() == pre.names_of(p).len() + 1
            &&& forall|j: int|
                0 <= j < pre.names_of(p).len() ==> #[trigger] post.names_of(p)[j] == pre.names_of(
                    p,
                )[j]
            &&& post.names_of(p).last().name@ == basename_of(child.path)
            &&& post.names_of(p).last().ino == i
            &&& post.has_child_name(p, basename_of(child.path))
            &&& post.child_ino_by_name(p, basename_of(child.path)) == i
            &&& forall|q: int|
                0 <= q < pre.count() ==> #[trigger] post.nodes_tree.node_at(q)
                    == pre.nodes_tree.node_at(q)
            &&& forall|q: int|
                0 <= q < pre.count() && q != p ==> #[trigger] post.nodes_tree.children_of(q)
                    == pre.nodes_tree.children_of(q)
            &&& forall|q: int|
                0 <= q < pre.count() && q != p ==> #[trigger] post.names_of(q) == pre.names_of(q)
            &&& post.nodes_tree.children_of(i as int) == Seq::<u64>::empty()
            &&& post.names_of(i as int) == Seq::<NameEntry>::empty()
        }
    }
}

/// Adding a fresh entry keeps the manager well-formed and does exactly
/// what `add_child_post` says of an insertion: the premises restate what
/// the tree insertion and the two name-index writes change.
#[verifier::rlimit(100)]
proof fn lemma_add_child_added(
    pre: InodeManager,
    post: InodeManager,
    p: int,
    childv: NodeView,
    i: u64,
)
    requires
        pre.wf(),
        1 <= p < pre.count(),
        pre.count() < usize::MAX,
        i == pre.count(),
        post.nodes_tree.wf(),
        post.count() == pre.count() + 1,
        post.nodes_tree.node_at(i as int) == (NodeView {
            inode: i,
            parent: p as u64,
            path: childv.path,
            attr: crate::node::FileAttr { ino: i, ..childv.attr },
        }),
        post.nodes_tree.children_of(i as int) == Seq::<u64>::empty(),
        post.nodes_tree.children_of(p) == pre.nodes_tree.children_of(p).push(i),
        forall|q: int|
            0 <= q < pre.count() ==> #[trigger] post.nodes_tree.node_at(q)
                == pre.nodes_tree.node_at(q),
        forall|q: int|
            0 <= q < pre.count() && q != p ==> #[trigger] post.nodes_tree.children_of(q)
                == pre.nodes_tree.children_of(q),
        post.children_name@.len() == pre.count() + 1,
        forall|q: int|
            0 <= q < pre.count() && q != p ==> #[trigger] post.children_name@[q]
                == pre.children_name@[q],
        post.children_name@[i as int]@ == Seq::<NameEntry>::empty(),
        post.names_of(p) == pre.names_of(p).push(post.names_of(p).last()),
        post.names_of(p).last().name@ == basename_of(childv.path),
        post.names_of(p).last().ino == i,
        forall|j: int|
            0 <= j < pre.names_of(p).len() ==> (#[trigger] pre.names_of(p)[j]).name@
                != basename_of(childv.path),
    ensures
        post.wf(),
        add_child_post(pre, post, p, childv, AddChild::Added(i)),
{
    assert(post.names_of(p).len() == pre.names_of(p).len() + 1);
    assert forall|q: int, j: int|
        0 <= q < post.count() && 0 <= j < post.names_of(q).len() implies {
        let e = #[trigger] post.names_of(q)[j];
        &&& e.ino == post.nodes_tree.children_of(q)[j]
        &&& e.name@ == basename_of(post.nodes_tree.node_at(e.ino as int).path)
    } by {
        if q == p && j == post.names_of(q).len() - 1 {
            assert(post.names_of(q)[j].ino == i);
        } else if q == i as int {
            assert(post.names_of(q).len() == 0);
        } else {
            assert(q < pre.count());
            assert(post.names_of(q)[j] == pre.names_of(q)[j]);
            assert(pre.names_of(q)[j].ino == pre.nodes_tree.children_of(q)[j]);
            assert(1 <= pre.names_of(q)[j].ino < pre.count());
        }
    }
    assert forall|q: int, j1: int, j2: int|
        0 <= q < post.count() && 0 <= j1 < j2 < post.names_of(q).len() implies (
    #[trigger] post.names_of(q)[j1]).name@ != (#[trigger] post.names_of(q)[j2]).name@ by {
        if q == p && j2 == post.names_of(q).len() - 1 {
            assert(post.names_of(q)[j1] == pre.names_of(q)[j1]);
            assert(pre.names_of(q)[j1].name@ != basename_of(childv.path));
        } else if q == i as int {
        } else {
            assert(q < pre.count());
            assert(post.names_of(q)[j1] == pre.names_of(q)[j1]);
            assert(post.names_of(q)[j2] == pre.names_of(q)[j2]);
        }
    }
    assert forall|q: int| 0 <= q < post.count() implies (#[trigger] post.names_of(q)).len()
        == post.nodes_tree.children_of(q).len() by {
        if q == i as int {
            assert(post.names_of(q).len() == 0);
        } else if q != p {
            assert(post.names_of(q) == pre.names_of(q));
        }
    }
    assert(!pre.has_child_name(p, basename_of(childv.path)));
    post.lemma_name_slot(p, basename_of(childv.path), post.names_of(p).len() - 1);
    assert(post.names_of(i as int) == Seq::<NameEntry>::empty());
}

/// The window of a parent's children that `get_children_by_index` hands
/// out: `v` holds the children from `offset` on, at most `limit` of them
/// (all of them when `limit` is not positive), resolved to node images.
pub open spec fn children_window(
    m: InodeManager,
    p: int,
    offset: int,
    limit: int,
    v: Seq<Node>,
) -> bool {
    let cs = m.nodes_tree.children_of(p);
    let eff = if limit <= 0 {
        cs.len() as int
    } else if limit > cs.len() {
        cs.len() as int
    } else {
        limit
    };
    &&& v.len() == crate::tree::window_len(cs.len() as int, offset, eff)
    &&& forall|k: int|
        0 <= k < v.len() ==> (#[trigger] v[k])@ == m.nodes_tree.node_at(cs[offset + k] as int)
}

/// The position of `name` in a list of name-index entries, scanned front
/// to back.
fn find_name(entries: &Vec<NameEntry>, name: &Vec<u8>) -> (r: Option<usize>)
    ensures
        match r {
            Some(j) => j < entries@.len() && entries@[j as int].name@ == name@,
            None => forall|j: int| 0 <= j < entries@.len() ==> entries@[j].name@ != name@,
        },
{
    let mut j: usize = 0;
    while j < entries.len()
        invariant
            j <= entries@.len(),
            forall|k: int| 0 <= k < j ==> entries@[k].name@ != name@,
        decreases entries@.len() - j,
    {
        if bytes_eq(&entries[j].name, name) {
            return Some(j);
        }
        j = j + 1;
    }
    None
}

/// Law: every non-root resident node's parent resolves to a resident
/// node, with a smaller inode number.
pub proof fn lemma_parent_resident(m: InodeManager, i: int)
    requires
        m.wf(),
        m.resident(i),
        i != 1,
    ensures
        m.resident(m.nodes_tree.node_at(i).parent as int),
        m.nodes_tree.node_at(i).parent < i,
{
}

/// Law: the name index is sound.  An indexed pair resolves to a resident
/// child whose parent link points back to the parent and the basename of
/// whose path is the indexed name.
pub proof fn lemma_name_index_sound(m: InodeManager, p: int, name: Seq<u8>)
    requires
        m.wf(),
        1 <= p < m.count(),
        m.has_child_name(p, name),
    ensures
        ({
            let c = m.child_ino_by_name(p, name) as int;
            &&& m.resident(c)
            &&& m.nodes_tree.node_at(c).parent == p
            &&& basename_of(m.nodes_tree.node_at(c).path) == name
        }),
{
    let j = m.name_slot(p, name);
    assert(m.names_of(p)[j].ino == m.nodes_tree.children_of(p)[j]);
}

/// Law: the name index is complete.  Every recorded child is indexed
/// under the basename of its path.
pub proof fn lemma_name_index_complete(m: InodeManager, p: int, j: int)
    requires
        m.wf(),
        1 <= p < m.count(),
        0 <= j < m.nodes_tree.children_of(p).len(),
    ensures
        m.has_child_name(
            p,
            basename_of(m.nodes_tree.node_at(m.nodes_tree.children_of(p)[j] as int).path),
        ),
{
    assert(m.names_of(p)[j].ino == m.nodes_tree.children_of(p)[j]);
}

/// Law: basenames are unique within one parent's child list.
pub proof fn lemma_sibling_names_unique(m: InodeManager, p: int, j1: int, j2: int)
    requires
        m.wf(),
        1 <= p < m.count(),
        0 <= j1 < j2 < m.nodes_tree.children_of(p).len(),
    ensures
        basename_of(m.nodes_tree.node_at(m.nodes_tree.children_of(p)[j1] as int).path)
            != basename_of(m.nodes_tree.node_at(m.nodes_tree.children_of(p)[j2] as int).path),
{
    assert(m.names_of(p)[j1].ino == m.nodes_tree.children_of(p)[j1]);
    assert(m.names_of(p)[j2].ino == m.nodes_tree.children_of(p)[j2]);
}

/// Law: every resident node records its own inode number, in the record
/// and in the attribute block alike; hence inode one is borne by the root
/// alone.
pub proof fn lemma_attr_ino(m: InodeManager, i: int)
    requires
        m.wf(),
        m.resident(i),
    ensures
        m.nodes_tree.node_at(i).inode == i,
        m.nodes_tree.node_at(i).attr.ino == i,
        i != 1 ==> m.nodes_tree.node_at(i).inode != 1,
{
}


/// Law: every inode the allocator issues is fresh — at least two, and
/// strictly above every inode resident before the insertion.  Since
/// nodes are never removed, an inode once issued stays resident, so this
/// says that issued inodes are strictly increasing over the whole
/// history and that none is ever reused.
pub proof fn lemma_issued_inode_fresh(
    pre: InodeManager,
    post: InodeManager,
    p: int,
    c: NodeView,
    i: u64,
)
    requires
        pre.wf(),
        add_child_post(pre, post, p, c, AddChild::Added(i)),
    ensures
        i >= 2,
        forall|q: int| pre.resident(q) ==> q < i,
        post.resident(i as int),
        forall|q: int| pre.resident(q) ==> post.resident(q),
{
}

/// Law: the allocator issues strictly increasing inode numbers — a later
/// insertion always reports a larger inode than an earlier one.
pub proof fn lemma_inodes_strictly_increase(
    m0: InodeManager,
    m1: InodeManager,
    m2: InodeManager,
    p1: int,
    c1: NodeView,
    p2: int,
    c2: NodeView,
    i1: u64,
    i2: u64,
)
    requires
        add_child_post(m0, m1, p1, c1, AddChild::Added(i1)),
        add_child_post(m1, m2, p2, c2, AddChild::Added(i2)),
    ensures
        i1 < i2,
{
}

/// Law: a second insertion of the same basename under the same parent is
/// suppressed — the index converges to the single entry the first
/// insertion made, and the state does not change.
pub proof fn lemma_duplicate_add_suppressed(
    m0: InodeManager,
    m1: InodeManager,
    m2: InodeManager,
    p: int,
    c1: NodeView,
    c2: NodeView,
    i: u64,
    r2: AddChild,
)
    requires
        m0.wf(),
        m1.wf(),
        add_child_post(m0, m1, p, c1, AddChild::Added(i)),
        basename_of(c2.path) == basename_of(c1.path),
        add_child_post(m1, m2, p, c2, r2),
    ensures
        r2 == AddChild::Exists(i),
        m2 == m1,
{
    assert(m1.has_child_name(p, basename_of(c2.path)));
    match r2 {
        AddChild::Added(_) => {
            assert(false);
        }
        AddChild::Exists(c) => {
            assert(c == m1.child_ino_by_name(p, basename_of(c1.path)));
        }
    }
}

} // verus!
