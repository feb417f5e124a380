//! The concurrent-by-design inode store: a graph of nodes keyed by inode
//! number and sharded by inode modulo a fixed shard count.  Inode `i` lives
//! in shard `i % SHARD_COUNT` at position `i / SHARD_COUNT`, which works out
//! because inode numbers are assigned densely, in order, starting at zero
//! for the placeholder slot.  Each entry stores the node and the ordered
//! list of its children's inode numbers.

use vstd::prelude::*;
use vstd::arithmetic::div_mod::{
    lemma_fundamental_div_mod, lemma_fundamental_div_mod_converse, lemma_div_is_ordered,
    lemma_div_by_multiple, lemma_mod_division_less_than_divisor, lemma_div_pos_is_pos,
};
use crate::node::Node as Inode;
use crate::node::NodeView;

verus! {

/// How many shards the store is split into.
pub const SHARD_COUNT: usize = 100;

/// One shard: the entries of every inode congruent to this shard's index.
#[derive(Debug)]
pub struct Branch {
    pub nodes: Vec<Node>,
}

/// One entry of the store: a node and its children's inode numbers, in the
/// order in which they were inserted.
#[derive(Debug)]
pub struct Node {
    pub inode: Inode,
    pub children_inodes: Vec<u64>,
}

impl Node {
    pub fn new(inode: Inode) -> (r: Node)
        ensures
            r.inode@ == inode@,
            r.children_inodes@ == Seq::<u64>::empty(),
    {
        Node { inode, children_inodes: vec![] }
    }
}

impl Default for Branch {
    fn default() -> (r: Self)
        ensures
            r.nodes@ == Seq::<Node>::empty(),
    {
        Branch { nodes: vec![] }
    }
}

/// The sharded store itself.  `node_count` counts the slots in use,
/// including the placeholder at inode zero.
#[derive(Debug)]
pub struct Tree {
    pub branches: Vec<Branch>,
    pub node_count: usize,
}

/// How many slots shard `s` holds when `n` slots are in use overall: one
/// for every inode below `n` that is congruent to `s`.
pub open spec fn slots_in_shard(s: int, n: int) -> int {
    if s < n {
        (n - 1 - s) / (SHARD_COUNT as int) + 1
    } else {
        0
    }
}

impl Tree {
    /// How many slots are in use, the placeholder at inode zero included.
    pub open spec fn count(self) -> int {
        self.node_count as int
    }

    /// The entry stored for inode `i`.
    pub open spec fn entry_at(self, i: int) -> Node {
        self.branches@[i % (SHARD_COUNT as int)].nodes@[i / (SHARD_COUNT as int)]
    }

    /// The node stored for inode `i`.
    pub open spec fn node_at(self, i: int) -> NodeView {
        self.entry_at(i).inode@
    }

    /// The children of inode `i`, in insertion order.
    pub open spec fn children_of(self, i: int) -> Seq<u64> {
        self.entry_at(i).children_inodes@
    }

    /// Whether inode `i` is resident.  Inode zero is the placeholder slot
    /// and never resident; inode one is the root.
    pub open spec fn resident(self, i: int) -> bool {
        1 <= i < self.count()
    }

    /// The layout invariant alone: every shard's length is tied to
    /// `node_count`, so that inode `i` is exactly at shard
    /// `i % SHARD_COUNT`, slot `i / SHARD_COUNT`.  Opaque because only the
    /// store's own operations reason about the layout.
    #[verifier::opaque]
    pub open spec fn shape(self) -> bool {
        forall|s: int|
            0 <= s < SHARD_COUNT ==> (#[trigger] self.branches@[s]).nodes@.len()
                == slots_in_shard(s, self.count())
    }

    /// Well-formedness of the store.
    ///
    /// The placeholder slot at inode zero has no children, the layout
    /// follows `shape`, and the graph invariants hold:
    /// every resident node records its own inode number, also inside its
    /// attribute block; the root is its own parent; every other node's
    /// parent is a resident node with a smaller inode number; child lists
    /// hold strictly increasing resident inodes whose parent links point
    /// back; and every non-root node stands in its parent's child list.
    pub open spec fn wf(self) -> bool {
        &&& self.branches.len() == SHARD_COUNT
        &&& 2 <= self.count() <= usize::MAX
        &&& self.shape()
        &&& self.children_of(0) == Seq::<u64>::empty()
        &&& forall|i: int| 1 <= i < self.count() ==> (#[trigger] self.node_at(i)).inode == i
        &&& forall|i: int| 1 <= i < self.count() ==> (#[trigger] self.node_at(i)).attr.ino == i
        &&& self.node_at(1).parent == 1
        &&& forall|i: int| 2 <= i < self.count() ==> 1 <= (#[trigger] self.node_at(i)).parent < i
        &&& forall|p: int, j: int|
            1 <= p < self.count() && 0 <= j < self.children_of(p).len() ==> {
                let c = (#[trigger] self.children_of(p)[j]) as int;
                &&& 2 <= c < self.count()
                &&& self.node_at(c).parent == p
                &&& j > 0 ==> self.children_of(p)[j - 1] < c
            }
        &&& forall|i: int|
            2 <= i < self.count() ==> (#[trigger] self.children_of(
                self.node_at(i).parent as int,
            )).contains(i as u64)
    }

    /// A child list under a well-formed store is strictly increasing, so a
    /// child inode occurs at most once in it.
    pub proof fn lemma_children_increasing(self, p: int, j1: int, j2: int)
        requires
            self.wf(),
            1 <= p < self.count(),
            0 <= j1 < j2 < self.children_of(p).len(),
        ensures
            self.children_of(p)[j1] < self.children_of(p)[j2],
    {
        let cs = self.children_of(p);
        assert forall|j: int| 0 < j < cs.len() implies cs[j - 1] < #[trigger] cs[j] by {
            assert(self.children_of(p)[j] == cs[j]);
        }
        lemma_adjacent_increasing(cs, j1, j2);
    }

    /// Builds the store around the root node, which takes inode one; the
    /// placeholder slot at inode zero holds a copy of it.
    pub fn new(root: Inode) -> (t: Tree)
        requires
            root@.inode == 1,
            root@.parent == 1,
            root@.attr.ino == 1,
        ensures
            t.wf(),
            t.count() == 2,
            t.node_at(1) == root@,
            t.children_of(1) == Seq::<u64>::empty(),
            t.children_of(0) == Seq::<u64>::empty(),
    {
        let mut branches: Vec<Branch> = vec![];
        let mut i: usize = 0;
        while i < SHARD_COUNT
            invariant
                i <= SHARD_COUNT,
                branches.len() == i,
                forall|s: int| 0 <= s < i ==> (#[trigger] branches@[s]).nodes@.len() == 0,
            decreases SHARD_COUNT - i,
        {
            branches.push(Branch::default());
            i = i + 1;
        }
        let mut t = Tree { branches, node_count: 2 };
        let placeholder = Node::new(root.clone());
        t.branches[0].nodes.push(placeholder);
        t.branches[1].nodes.push(Node::new(root));
        proof {
            reveal(Tree::shape);
            assert forall|s: int| 0 <= s < SHARD_COUNT implies (#[trigger] t.branches@[s]).nodes@.len()
                == slots_in_shard(s, 2) by {
                if s >= 2 {
                    assert(slots_in_shard(s, 2) == 0);
                } else {
                    assert((2 - 1 - s) / (SHARD_COUNT as int) == 0);
                }
            }
            assert(t.node_at(1) == root@) by {
                assert(1int % (SHARD_COUNT as int) == 1 && 1int / (SHARD_COUNT as int) == 0) by {
                    lemma_fundamental_div_mod_converse(1, SHARD_COUNT as int, 0, 1);
                }
            }
            assert(t.node_at(0) == root@ && t.children_of(0) =~= Seq::<u64>::empty()) by {
                assert(0int % (SHARD_COUNT as int) == 0 && 0int / (SHARD_COUNT as int) == 0) by {
                    lemma_fundamental_div_mod_converse(0, SHARD_COUNT as int, 0, 0);
                }
            }
        }
        t
    }

    /// How many slots are in use.
    pub fn len(&self) -> (r: usize)
        ensures
            r == self.count(),
    {
        self.node_count
    }

    /// A copy of the node stored for a resident inode.
    pub fn get(&self, ino: u64) -> (r: Inode)
        requires
            self.wf(),
            self.resident(ino as int),
        ensures
            r@ == self.node_at(ino as int),
    {
        proof {
            reveal(Tree::shape);
            lemma_layout(ino as int, self.count());
        }
        let branches_count = self.branches.len();
        let ino = ino as usize;
        self.branches[ino % branches_count].nodes[ino / branches_count].inode.clone()
    }

    /// The window `[offset, offset + limit)` of the children of a resident
    /// inode, resolved to copies of the child nodes.
    pub fn children(&self, ino: u64, offset: usize, limit: usize) -> (r: Vec<Inode>)
        requires
            self.wf(),
            self.resident(ino as int),
        ensures
            r@.len() == window_len(self.children_of(ino as int).len() as int, offset as int, limit as int),
            forall|k: int|
                0 <= k < r@.len() ==> (#[trigger] r@[k])@ == self.node_at(
                    self.children_of(ino as int)[offset + k] as int,
                ),
    {
        proof {
            reveal(Tree::shape);
            lemma_layout(ino as int, self.count());
        }
        let branch_count = self.branches.len();
        let parent_ino = ino as usize;
        proof {
            assert(parent_ino % branch_count == ino as int % (SHARD_COUNT as int));
            assert(parent_ino / branch_count == ino as int / (SHARD_COUNT as int));
        }
        let parent_node = &self.branches[parent_ino % branch_count].nodes[parent_ino / branch_count];
        let children_count = parent_node.children_inodes.len();
        let mut result: Vec<Inode> = vec![];
        let mut index: usize = 0;
        while index < limit && offset + index < children_count
            invariant
                self.wf(),
                self.resident(ino as int),
                parent_node == &self.entry_at(ino as int),
                children_count == self.children_of(ino as int).len(),
                offset + index <= children_count || index == 0,
                index <= limit,
                index <= window_len(children_count as int, offset as int, limit as int),
                result@.len() == index,
                forall|k: int|
                    0 <= k < index ==> (#[trigger] result@[k])@ == self.node_at(
                        self.children_of(ino as int)[offset + k] as int,
                    ),
            decreases limit - index,
        {
            let child_ino = parent_node.children_inodes[offset + index];
            let child_node = self.get(child_ino);
            result.push(child_node);
            index = index + 1;
        }
        proof {
            assert(result@.len() == window_len(
                children_count as int,
                offset as int,
                limit as int,
            ));
        }
        result
    }

    /// Inserts a child under a resident parent.  The child receives the
    /// next inode number, its record is written accordingly, its entry is
    /// appended to its shard, and its inode number is appended to the
    /// parent's child list.  Returns the assigned inode number.
    #[verifier::rlimit(100)]
    pub fn insert(&mut self, parent_ino: u64, child: Inode) -> (r: u64)
        requires
            old(self).wf(),
            old(self).resident(parent_ino as int),
            old(self).count() < usize::MAX,
        ensures
            final(self).wf(),
            r == old(self).count(),
            final(self).count() == old(self).count() + 1,
            final(self).node_at(r as int) == (NodeView {
                inode: r,
                parent: parent_ino,
                path: child@.path,
                attr: crate::node::FileAttr { ino: r, ..child@.attr },
            }),
            final(self).children_of(r as int) == Seq::<u64>::empty(),
            final(self).children_of(parent_ino as int) == old(self).children_of(
                parent_ino as int,
            ).push(r),
            forall|i: int|
                0 <= i < old(self).count() ==> final(self).node_at(i) == old(self).node_at(i),
            forall|i: int|
                0 <= i < old(self).count() && i != parent_ino ==> final(self).children_of(i)
                    == old(self).children_of(i),
    {
        let ghost n = self.count();
        let branch_count = self.branches.len();
        let child_ino: u64 = self.node_count as u64;
        let mut child = child;
        child.set_inode(child_ino, parent_ino);
        let child_index = (self.node_count) % branch_count;
        proof {
            reveal(Tree::shape);
            lemma_append_slot(n);
            lemma_layout(parent_ino as int, n);
        }
        self.branches[child_index].nodes.push(Node::new(child));
        self.node_count = self.node_count + 1;
        let parent_index = (parent_ino as usize) % branch_count;
        let parent_slot = (parent_ino as usize) / branch_count;
        proof {
            reveal(Tree::shape);
            assert(parent_index == parent_ino as int % (SHARD_COUNT as int));
            assert(parent_slot == parent_ino as int / (SHARD_COUNT as int));
            assert(child_index == n % (SHARD_COUNT as int));
            if parent_index == child_index {
                assert(self.branches@[parent_index as int].nodes@.len() == slots_in_shard(
                    parent_index as int,
                    n,
                ) + 1);
            } else {
                assert(self.branches@[parent_index as int].nodes@.len() == slots_in_shard(
                    parent_index as int,
                    n,
                ));
            }
            assert((parent_slot as int) < self.branches@[parent_index as int].nodes@.len());
        }
        self.branches[parent_index].nodes[parent_slot].children_inodes.push(child_ino);
        proof {
            reveal(Tree::shape);
            let post = *self;
            let pre = *old(self);
            assert forall|s: int| 0 <= s < SHARD_COUNT implies (#[trigger] post.branches@[s]).nodes@.len()
                == slots_in_shard(s, n + 1) by {
                if s == n % (SHARD_COUNT as int) {
                    lemma_append_slot(n);
                    lemma_next_slots(n);
                } else {
                    lemma_other_slots(s, n);
                }
            }
            assert forall|i: int| 0 <= i < n implies #[trigger] post.node_at(i) == pre.node_at(
                i,
            ) by {
                lemma_layout(i, n);
                lemma_append_slot(n);
                if i % (SHARD_COUNT as int) == n % (SHARD_COUNT as int) {
                    lemma_distinct_slots(i, n);
                }
                if i != parent_ino && i % (SHARD_COUNT as int) == parent_ino as int % (
                    SHARD_COUNT as int) {
                    lemma_distinct_slots_general(i, parent_ino as int);
                }
            }
            assert forall|i: int| 0 <= i < n && i != parent_ino implies #[trigger] post.children_of(
                i,
            ) == pre.children_of(i) by {
                lemma_layout(i, n);
                lemma_append_slot(n);
                if i % (SHARD_COUNT as int) == n % (SHARD_COUNT as int) {
                    lemma_distinct_slots(i, n);
                }
                if i % (SHARD_COUNT as int) == parent_ino as int % (SHARD_COUNT as int) {
                    lemma_distinct_slots_general(i, parent_ino as int);
                }
            }
            assert(post.node_at(n) == (NodeView {
                inode: child_ino,
                parent: parent_ino,
                path: child@.path,
                attr: crate::node::FileAttr { ino: child_ino, ..child@.attr },
            }) && post.children_of(n) == Seq::<u64>::empty()) by {
                lemma_layout(n, n + 1);
                lemma_append_slot(n);
                if n % (SHARD_COUNT as int) == parent_ino as int % (SHARD_COUNT as int) {
                    lemma_distinct_slots_general(n, parent_ino as int);
                }
            }
            assert(post.children_of(parent_ino as int) == pre.children_of(
                parent_ino as int,
            ).push(child_ino)) by {
                lemma_layout(parent_ino as int, n);
                lemma_append_slot(n);
                if n % (SHARD_COUNT as int) == parent_ino as int % (SHARD_COUNT as int) {
                    lemma_distinct_slots_general(n, parent_ino as int);
                }
            }
            lemma_insert_preserves_wf(pre, post, parent_ino as int, n);
        }
        child_ino
    }
}

/// In a list whose adjacent elements increase, any earlier element is
/// smaller than any later one.
proof fn lemma_adjacent_increasing(cs: Seq<u64>, j1: int, j2: int)
    requires
        forall|j: int| 0 < j < cs.len() ==> cs[j - 1] < #[trigger] cs[j],
        0 <= j1 < j2 < cs.len(),
    ensures
        cs[j1] < cs[j2],
    decreases j2 - j1,
{
    if j1 + 1 < j2 {
        lemma_adjacent_increasing(cs, j1 + 1, j2);
    }
}

/// The premises shared by the insertion lemmas: exactly what
/// `Tree::insert` changes about the store.
spec fn insert_shape(pre: Tree, post: Tree, parent_ino: int, n: int) -> bool {
    &&& pre.wf()
    &&& 1 <= parent_ino < n
    &&& n == pre.count()
    &&& n < usize::MAX
    &&& post.node_count == n + 1
    &&& post.branches@.len() == SHARD_COUNT
    &&& forall|s: int|
        0 <= s < SHARD_COUNT ==> (#[trigger] post.branches@[s]).nodes@.len()
            == slots_in_shard(s, n + 1)
    &&& forall|i: int| 0 <= i < n ==> #[trigger] post.node_at(i) == pre.node_at(i)
    &&& forall|i: int|
        0 <= i < n && i != parent_ino ==> #[trigger] post.children_of(i) == pre.children_of(i)
    &&& post.node_at(n).inode == n as u64
    &&& post.node_at(n).attr.ino == n as u64
    &&& post.node_at(n).parent == parent_ino as u64
    &&& post.children_of(n) == Seq::<u64>::empty()
    &&& post.children_of(parent_ino) == pre.children_of(parent_ino).push(n as u64)
}

/// After an insertion, every child list still holds strictly increasing
/// resident inodes whose parent links point back.
proof fn lemma_insert_children_clause(pre: Tree, post: Tree, parent_ino: int, n: int)
    requires
        insert_shape(pre, post, parent_ino, n),
    ensures
        forall|p: int, j: int|
            1 <= p < post.count() && 0 <= j < post.children_of(p).len() ==> {
                let c = (#[trigger] post.children_of(p)[j]) as int;
                &&& 2 <= c < post.count()
                &&& post.node_at(c).parent == p
                &&& j > 0 ==> post.children_of(p)[j - 1] < c
            },
{
    assert forall|p: int, j: int|
        1 <= p < post.count() && 0 <= j < post.children_of(p).len() implies {
        let c = (#[trigger] post.children_of(p)[j]) as int;
        &&& 2 <= c < post.count()
        &&& post.node_at(c).parent == p
        &&& j > 0 ==> post.children_of(p)[j - 1] < c
    } by {
        if p == parent_ino && j == post.children_of(p).len() - 1 {
            assert(post.children_of(p)[j] == n as u64);
        } else {
            assert(p < n);
            assert(pre.children_of(p)[j] == post.children_of(p)[j]);
            assert(j > 0 ==> pre.children_of(p)[j - 1] == post.children_of(p)[j - 1]);
        }
    }
}

/// After an insertion, every non-root node still stands in its parent's
/// child list.
proof fn lemma_insert_contains_clause(pre: Tree, post: Tree, parent_ino: int, n: int)
    requires
        insert_shape(pre, post, parent_ino, n),
    ensures
        forall|i: int|
            2 <= i < post.count() ==> (#[trigger] post.children_of(
                post.node_at(i).parent as int,
            )).contains(i as u64),
{
    assert forall|i: int| 2 <= i < post.count() implies (#[trigger] post.children_of(
        post.node_at(i).parent as int,
    )).contains(i as u64) by {
        if i < n {
            let p = pre.node_at(i).parent as int;
            assert(pre.children_of(p).contains(i as u64));
            let j = choose|j: int|
                0 <= j < pre.children_of(p).len() && pre.children_of(p)[j] == i as u64;
            assert(post.children_of(p)[j] == i as u64);
            assert(post.children_of(p).contains(i as u64));
        } else {
            assert(post.children_of(parent_ino)[post.children_of(parent_ino).len() - 1]
                == n as u64);
            assert(post.children_of(parent_ino).contains(n as u64));
        }
    }
}

/// Inserting a fresh child entry under a resident parent keeps the store
/// well-formed.
proof fn lemma_insert_preserves_wf(pre: Tree, post: Tree, parent_ino: int, n: int)
    requires
        insert_shape(pre, post, parent_ino, n),
    ensures
        post.wf(),
{
    lemma_insert_children_clause(pre, post, parent_ino, n);
    lemma_insert_contains_clause(pre, post, parent_ino, n);
    assert(post.shape()) by {
        reveal(Tree::shape);
    }
    assert(post.children_of(0) == pre.children_of(0));
    assert forall|i: int| 1 <= i < post.count() implies (#[trigger] post.node_at(i)).inode == i
        && post.node_at(i).attr.ino == i by {
        if i < n {
            assert(post.node_at(i) == pre.node_at(i));
        }
    }
    assert forall|i: int| 2 <= i < post.count() implies 1 <= (#[trigger] post.node_at(
        i,
    )).parent < i by {
        if i < n {
            assert(post.node_at(i) == pre.node_at(i));
        }
    }
    assert(post.node_at(1) == pre.node_at(1));
}

/// The length of the window `[offset, offset + limit)` over a list of
/// length `len`.
pub open spec fn window_len(len: int, offset: int, limit: int) -> int {
    if offset >= len {
        0
    } else if offset + limit > len {
        len - offset
    } else {
        limit
    }
}

/// Shard and slot arithmetic for an inode `i` below the count `n`: the
/// shard index is within range and the slot is within the shard's length.
pub proof fn lemma_layout(i: int, n: int)
    requires
        0 <= i < n,
    ensures
        0 <= i % (SHARD_COUNT as int) < SHARD_COUNT,
        0 <= i / (SHARD_COUNT as int),
        i == (SHARD_COUNT as int) * (i / (SHARD_COUNT as int)) + i % (SHARD_COUNT as int),
        i / (SHARD_COUNT as int) < slots_in_shard(i % (SHARD_COUNT as int), n),
{
    let d = SHARD_COUNT as int;
    lemma_fundamental_div_mod(i, d);
    lemma_mod_division_less_than_divisor(i, d);
    lemma_div_pos_is_pos(i, d);
    let s = i % d;
    let q = i / d;
    assert(s < n);
    assert(d * q == i - s);
    assert(d * q <= n - 1 - s);
    lemma_div_is_ordered(d * q, n - 1 - s, d);
    lemma_div_by_multiple(q, d);
    assert((d * q) / d == q);
}

/// The slot where the next inode `n` goes is exactly the current length of
/// its shard.
pub proof fn lemma_append_slot(n: int)
    requires
        n >= 0,
    ensures
        slots_in_shard(n % (SHARD_COUNT as int), n) == n / (SHARD_COUNT as int),
        0 <= n % (SHARD_COUNT as int) < SHARD_COUNT,
        0 <= n / (SHARD_COUNT as int),
{
    let d = SHARD_COUNT as int;
    lemma_fundamental_div_mod(n, d);
    lemma_mod_division_less_than_divisor(n, d);
    lemma_div_pos_is_pos(n, d);
    let s = n % d;
    let q = n / d;
    if s < n {
        assert(n - 1 - s == d * q - 1);
        assert(q >= 1) by {
            if q == 0 {
                assert(n == s);
            }
        }
        assert(d * q - 1 == d * (q - 1) + (d - 1)) by (nonlinear_arith);
        lemma_fundamental_div_mod_converse(d * q - 1, d, q - 1, d - 1);
        assert((n - 1 - s) / d == q - 1);
    } else {
        assert(s == n);
        assert(q == 0) by {
            if q >= 1 {
                assert(d * q >= d) by (nonlinear_arith)
                    requires q >= 1 && d == SHARD_COUNT as int;
            }
        }
    }
}

/// Growing the count by one only lengthens the shard of the new inode.
pub proof fn lemma_next_slots(n: int)
    requires
        n >= 0,
    ensures
        slots_in_shard(n % (SHARD_COUNT as int), n + 1) == slots_in_shard(
            n % (SHARD_COUNT as int),
            n,
        ) + 1,
{
    let d = SHARD_COUNT as int;
    lemma_append_slot(n);
    let s = n % d;
    let q = n / d;
    lemma_fundamental_div_mod(n, d);
    assert(s < n + 1);
    assert((n + 1 - 1 - s) / d == q) by {
        assert(n - s == d * q);
        lemma_div_by_multiple(q, d);
    }
}

/// Growing the count by one leaves every other shard's length unchanged.
pub proof fn lemma_other_slots(s: int, n: int)
    requires
        n >= 0,
        0 <= s < SHARD_COUNT,
        s != n % (SHARD_COUNT as int),
    ensures
        slots_in_shard(s, n + 1) == slots_in_shard(s, n),
{
    let d = SHARD_COUNT as int;
    lemma_fundamental_div_mod(n, d);
    lemma_mod_division_less_than_divisor(n, d);
    if s < n {
        let m = n - s;
        assert(m >= 1);
        lemma_fundamental_div_mod(m, d);
        lemma_mod_division_less_than_divisor(m, d);
        lemma_div_pos_is_pos(m, d);
        let t = m % d;
        let k = m / d;
        assert(t != 0) by {
            if t == 0 {
                assert(n == d * k + s);
                lemma_fundamental_div_mod_converse(n, d, k, s);
            }
        }
        assert(m - 1 == d * k + (t - 1));
        lemma_fundamental_div_mod_converse(m - 1, d, k, t - 1);
        assert((n - 1 - s) / d == k);
        assert((n + 1 - 1 - s) / d == k) by {
            lemma_fundamental_div_mod_converse(m, d, k, t);
        }
    } else {
        if s == n {
            assert(n < SHARD_COUNT);
            assert(n % d == n) by {
                lemma_fundamental_div_mod_converse(n, d, 0, n);
            }
        }
        assert(s > n);
    }
}

/// Two different inodes in the same shard sit in different slots.
pub proof fn lemma_distinct_slots_general(i1: int, i2: int)
    requires
        i1 >= 0,
        i2 >= 0,
        i1 != i2,
        i1 % (SHARD_COUNT as int) == i2 % (SHARD_COUNT as int),
    ensures
        i1 / (SHARD_COUNT as int) != i2 / (SHARD_COUNT as int),
{
    let d = SHARD_COUNT as int;
    lemma_fundamental_div_mod(i1, d);
    lemma_fundamental_div_mod(i2, d);
    assert(d * (i1 / d) != d * (i2 / d));
}

/// An inode below the count never shares the slot of the inode about to be
/// assigned.
pub proof fn lemma_distinct_slots(i: int, n: int)
    requires
        0 <= i < n,
        i % (SHARD_COUNT as int) == n % (SHARD_COUNT as int),
    ensures
        i / (SHARD_COUNT as int) != n / (SHARD_COUNT as int),
{
    lemma_distinct_slots_general(i, n);
}

} // verus!
