//! An n-ary tree of discovered resources, held in an arena: nodes are
//! addressed by index, the root is index `ROOT`, and a parent lists the indices
//! of its children in the order they were attached.
use crate::queue::Queue;
use vstd::prelude::*;

verus! {

/// The index of the root in every tree.
pub const ROOT: usize = 0;

/// A value and the indices of its children.
pub struct TreeNode<T> {
    pub value: T,
    pub children: Vec<usize>,
}

impl<T> TreeNode<T> {
    /// The indices of the children, in attachment order.
    pub open spec fn child_ids(&self) -> Seq<usize> {
        self.children@
    }

    /// A node holding `value`, with no children.
    pub fn new(value: T) -> (r: Self)
        ensures
            r.value == value,
            r.child_ids().len() == 0,
    {
        TreeNode { value, children: Vec::new() }
    }

    /// The indices of the children, in attachment order.
    pub fn children(&self) -> (r: &Vec<usize>)
        ensures
            r@ == self.child_ids(),
    {
        &self.children
    }
}

/// A tree and the number of breadth-first levels that have been completed
/// (`depth`, 1 for a new tree).
pub struct Tree<T> {
    nodes: Vec<TreeNode<T>>,
    depth: usize,
    parent: Ghost<Seq<int>>,
}

impl<T> Tree<T> {
    /// The number of completed levels.
    pub closed spec fn level(&self) -> usize {
        self.depth
    }

    /// The number of nodes.
    pub closed spec fn size(&self) -> nat {
        self.nodes@.len()
    }

    /// The value held by node `i`.
    pub closed spec fn value_at(&self, i: int) -> T {
        self.nodes@[i].value
    }

    /// The children of node `i`, in attachment order.
    pub closed spec fn kids(&self, i: int) -> Seq<usize> {
        self.nodes@[i].children@
    }

    /// Every node but the root has exactly one parent, whose index is lower
    /// than its own; the root is nobody's child.
    pub closed spec fn wf(&self) -> bool {
        let n = self.nodes@.len();
        let parent = self.parent@;
        &&& n >= 1
        &&& parent.len() == n
        &&& forall|c: int| 0 < c < n ==> 0 <= #[trigger] parent[c] < c
        &&& forall|p: int, j: int|
            0 <= p < n && 0 <= j < self.nodes@[p].children@.len() ==> {
                let c = #[trigger] self.nodes@[p].children@[j] as int;
                0 < c < n && parent[c] == p
            }
        &&& forall|p: int| 0 <= p < n ==> (#[trigger] self.nodes@[p].children@).no_duplicates()
        &&& forall|c: int| 0 < c < n ==> self.nodes@[#[trigger] parent[c]].children@.contains(c as usize)
    }

    /// The children of the nodes of `ids`, taken node by node in the order of
    /// `ids`.
    pub open spec fn kids_of(&self, ids: Seq<usize>) -> Seq<usize>
        decreases ids.len(),
    {
        if ids.len() == 0 {
            Seq::empty()
        } else {
            self.kids_of(ids.drop_last()) + self.kids(ids.last() as int)
        }
    }

    /// Breadth-first visit from the nodes waiting in `queue`, taking at most
    /// `fuel` nodes.
    pub open spec fn bfs(&self, queue: Seq<usize>, fuel: nat) -> Seq<usize>
        decreases fuel,
    {
        if fuel == 0 || queue.len() == 0 {
            Seq::empty()
        } else {
            seq![queue[0]] + self.bfs(queue.drop_first() + self.kids(queue[0] as int), (fuel - 1) as nat)
        }
    }

    /// The indices of the nodes in level order: the root, then the children of
    /// each visited node in attachment order.
    pub open spec fn level_order(&self) -> Seq<usize> {
        self.bfs(seq![ROOT], self.size())
    }

    /// A tree whose only node is `root`'s value, at depth 1. Only the value
    /// is taken: child indices mean something inside a tree only.
    pub fn new(root: TreeNode<T>) -> (r: Self)
        ensures
            r.wf(),
            r.size() == 1,
            r.value_at(ROOT as int) == root.value,
            r.kids(ROOT as int).len() == 0,
            r.level() == 1,
    {
        let mut nodes: Vec<TreeNode<T>> = Vec::new();
        nodes.push(TreeNode::new(root.value));
        let ghost parent: Seq<int> = seq![0int];
        Tree { nodes, depth: 1, parent: Ghost(parent) }
    }

    /// Appends `child`'s value as a new leaf under `parent`, after the
    /// children it already has, and returns its index; nothing else changes.
    /// There is no check for cycles or repeated values.
    pub fn push_node(&mut self, parent: usize, child: TreeNode<T>) -> (id: usize)
        requires
            old(self).wf(),
            parent < old(self).size(),
        ensures
            final(self).wf(),
            id == old(self).size(),
            final(self).size() == old(self).size() + 1,
            final(self).size() <= usize::MAX,
            final(self).value_at(id as int) == child.value,
            final(self).kids(id as int).len() == 0,
            final(self).kids(parent as int) == old(self).kids(parent as int).push(id),
            forall|i: int| 0 <= i < old(self).size() ==> #[trigger] final(self).value_at(i) == old(self).value_at(i),
            forall|i: int| 0 <= i < old(self).size() && i != parent ==> #[trigger] final(self).kids(i) == old(self).kids(i),
            final(self).level() == old(self).level(),
    {
        let id = self.nodes.len();
        self.nodes.push(TreeNode::new(child.value));
        self.nodes[parent].children.push(id);
        let ghost par: Seq<int> = self.parent@.push(parent as int);
        self.parent = Ghost(par);
        assert(self.nodes.len() == self.nodes@.len());
        proof {
            let n = self.nodes@.len();
            let par = self.parent@;
            let old_nodes = old(self).nodes@;
            assert forall|p: int, j: int|
                0 <= p < n && 0 <= j < self.nodes@[p].children@.len() implies {
                    let c = #[trigger] self.nodes@[p].children@[j] as int;
                    0 < c < n && par[c] == p
                } by {
                if p != parent && p < id {
                    assert(self.nodes@[p] == old_nodes[p]);
                } else if p == parent {
                    if j < old_nodes[p].children@.len() {
                        assert(self.nodes@[p].children@[j] == old_nodes[p].children@[j]);
                    }
                }
            }
            assert forall|p: int| 0 <= p < n implies (#[trigger] self.nodes@[p].children@).no_duplicates() by {
                if p == parent {
                    assert forall|j: int| 0 <= j < old_nodes[p].children@.len() implies
                        old_nodes[p].children@[j] != id by {
                        let c = old_nodes[p].children@[j];
                        assert(c < id);
                    }
                } else if p < id {
                    assert(self.nodes@[p] == old_nodes[p]);
                }
            }
            assert forall|c: int| 0 < c < n implies self.nodes@[#[trigger] par[c]].children@.contains(c as usize) by {
                if c == id {
                    assert(self.nodes@[parent as int].children@.last() == id);
                } else {
                    let p = par[c];
                    assert(old_nodes[p].children@.contains(c as usize));
                    let j = choose|j: int| 0 <= j < old_nodes[p].children@.len() && old_nodes[p].children@[j] == c as usize;
                    assert(self.nodes@[p].children@[j] == c as usize);
                }
            }
        }
        id
    }

    /// The number of completed breadth-first levels.
    pub fn depth(&self) -> (r: usize)
        ensures
            r == self.level(),
    {
        self.depth
    }

    /// Marks one more breadth-first level as completed.
    pub fn close_level(&mut self)
        requires
            old(self).level() < usize::MAX,
        ensures
            final(self).level() == old(self).level() + 1,
            final(self).wf() == old(self).wf(),
            final(self).size() == old(self).size(),
            forall|i: int| #[trigger] final(self).value_at(i) == old(self).value_at(i),
            forall|i: int| #[trigger] final(self).kids(i) == old(self).kids(i),
    {
        self.depth = self.depth + 1;
    }

    /// The number of nodes.
    pub fn len(&self) -> (r: usize)
        ensures
            r == self.size(),
    {
        self.nodes.len()
    }

    /// Node `id`.
    pub fn node(&self, id: usize) -> (r: &TreeNode<T>)
        requires
            id < self.size(),
        ensures
            r.value == self.value_at(id as int),
            r.child_ids() == self.kids(id as int),
    {
        &self.nodes[id]
    }

    /// The root node.
    pub fn root(&self) -> (r: &TreeNode<T>)
        requires
            self.wf(),
        ensures
            r.value == self.value_at(ROOT as int),
            r.child_ids() == self.kids(ROOT as int),
    {
        &self.nodes[ROOT]
    }

    /// The indices of all nodes in level order.
    pub fn level_order_ids(&self) -> (r: Vec<usize>)
        requires
            self.wf(),
        ensures
            r@ == self.level_order(),
    {
        let n = self.nodes.len();
        let mut queue: Queue<usize> = Queue::new();
        queue.push(ROOT);
        let mut order: Vec<usize> = Vec::new();
        assert(order@ + self.bfs(queue@, n as nat) =~= self.level_order());
        while order.len() < n && !queue.is_empty()
            invariant
                self.wf(),
                n == self.size(),
                order.len() <= n,
                forall|k: int| 0 <= k < queue@.len() ==> queue@[k] < n,
                order@ + self.bfs(queue@, (n - order.len()) as nat) == self.level_order(),
            decreases n - order.len(),
        {
            let ghost q0 = queue@;
            let cur = queue.pop().unwrap();
            let kids = &self.nodes[cur].children;
            let mut j: usize = 0;
            while j < kids.len()
                invariant
                    self.wf(),
                    n == self.size(),
                    cur < n,
                    kids@ == self.kids(cur as int),
                    j <= kids@.len(),
                    queue@ == q0.drop_first() + kids@.take(j as int),
                    forall|k: int| 0 <= k < q0.len() ==> q0[k] < n,
                decreases kids.len() - j,
            {
                queue.push(kids[j]);
                j = j + 1;
                assert(queue@ =~= q0.drop_first() + kids@.take(j as int));
            }
            assert(kids@.take(j as int) =~= kids@);
            assert forall|k: int| 0 <= k < queue@.len() implies queue@[k] < n by {
                if k >= q0.len() - 1 {
                    assert(queue@[k] == kids@[k - (q0.len() - 1)]);
                }
            }
            let ghost fuel = (n - order.len()) as nat;
            assert(self.bfs(q0, fuel) == seq![cur] + self.bfs(queue@, (fuel - 1) as nat));
            order.push(cur);
            assert(order@ + self.bfs(queue@, (n - order.len()) as nat) =~= self.level_order());
        }
        assert(order.len() >= n || queue@.len() == 0);
        assert(self.bfs(queue@, (n - order.len()) as nat) =~= Seq::<usize>::empty());
        assert(order@ =~= self.level_order());
        order
    }

    /// The values of all nodes in level order: each node once, a parent
    /// before its children, siblings in attachment order.
    pub fn traverse(&self) -> (r: Vec<&T>)
        requires
            self.wf(),
        ensures
            r@.len() == self.level_order().len(),
            forall|k: int| 0 <= k < r@.len() ==> *r@[k] == self.value_at(#[trigger] self.level_order()[k] as int),
    {
        let order = self.level_order_ids();
        proof {
            lemma_level_order_in_range(self);
        }
        let mut out: Vec<&T> = Vec::new();
        let mut k: usize = 0;
        while k < order.len()
            invariant
                order@ == self.level_order(),
                forall|i: int| 0 <= i < order@.len() ==> order@[i] < self.size(),
                k <= order@.len(),
                out@.len() == k,
                forall|i: int| 0 <= i < k ==> *out@[i] == self.value_at(#[trigger] order@[i] as int),
            decreases order.len() - k,
        {
            out.push(&self.nodes[order[k]].value);
            k = k + 1;
        }
        out
    }
}

/// A sequence without duplicates whose elements are all below `n` has at most
/// `n` elements.
proof fn lemma_unique_below_len(s: Seq<usize>, n: nat)
    requires
        s.no_duplicates(),
        forall|i: int| 0 <= i < s.len() ==> (s[i] as nat) < n,
    ensures
        s.len() <= n,
    decreases n,
{
    if s.len() > 0 {
        if n == 0 {
            assert((s[0] as nat) < 0);
        } else {
            let m = (n - 1) as usize;
            if s.contains(m) {
                let k = choose|k: int| 0 <= k < s.len() && s[k] == m;
                let s2 = s.remove(k);
                assert forall|i: int| 0 <= i < s2.len() implies (s2[i] as nat) < n - 1 by {
                    if i < k {
                        assert(s2[i] == s[i]);
                    } else {
                        assert(s2[i] == s[i + 1]);
                    }
                }
                assert forall|i: int, j: int| 0 <= i < s2.len() && 0 <= j < s2.len() && i != j implies s2[i] != s2[j] by {
                    let a = if i < k { i } else { i + 1 };
                    let b = if j < k { j } else { j + 1 };
                    assert(s2[i] == s[a] && s2[j] == s[b]);
                }
                lemma_unique_below_len(s2, (n - 1) as nat);
            } else {
                assert forall|i: int| 0 <= i < s.len() implies (s[i] as nat) < n - 1 by {
                    assert(s[i] != m);
                }
                lemma_unique_below_len(s, (n - 1) as nat);
            }
        }
    }
}

/// Every child of every node of `ids` occurs among `t.kids_of(ids)`.
proof fn lemma_kids_of_contains<T>(t: &Tree<T>, ids: Seq<usize>, k: int, j: int)
    requires
        0 <= k < ids.len(),
        0 <= j < t.kids(ids[k] as int).len(),
    ensures
        t.kids_of(ids).contains(t.kids(ids[k] as int)[j]),
    decreases ids.len(),
{
    let c = t.kids(ids[k] as int)[j];
    let pre = t.kids_of(ids.drop_last());
    if k == ids.len() - 1 {
        assert(t.kids_of(ids)[pre.len() + j] == c);
    } else {
        lemma_kids_of_contains(t, ids.drop_last(), k, j);
        let i = choose|i: int| 0 <= i < pre.len() && pre[i] == c;
        assert(t.kids_of(ids)[i] == c);
    }
}

/// Each element of `t.kids_of(ids)` is a child of some node of `ids`.
proof fn lemma_kids_of_from<T>(t: &Tree<T>, ids: Seq<usize>, i: int)
    requires
        0 <= i < t.kids_of(ids).len(),
    ensures
        exists|k: int| 0 <= k < ids.len() && #[trigger] t.kids(ids[k] as int).contains(t.kids_of(ids)[i]),
    decreases ids.len(),
{
    let pre = t.kids_of(ids.drop_last());
    let last = ids.len() - 1;
    if i < pre.len() {
        lemma_kids_of_from(t, ids.drop_last(), i);
        let k = choose|k: int| 0 <= k < ids.drop_last().len() && #[trigger] t.kids(ids.drop_last()[k] as int).contains(pre[i]);
        assert(ids[k] == ids.drop_last()[k]);
        assert(t.kids_of(ids)[i] == pre[i]);
        assert(t.kids(ids[k] as int).contains(t.kids_of(ids)[i]));
    } else {
        let j = i - pre.len();
        assert(t.kids(ids[last] as int)[j] == t.kids_of(ids)[i]);
        assert(t.kids(ids[last] as int).contains(t.kids_of(ids)[i]));
    }
}

/// What holds at each step of the breadth-first visit: the nodes visited
/// (`out`) followed by those waiting (`q`) are the root and then the children
/// of the visited nodes in order, with no index twice.
spec fn bfs_inv<T>(t: &Tree<T>, out: Seq<usize>, q: Seq<usize>) -> bool {
    &&& out + q == seq![ROOT] + t.kids_of(out)
    &&& (out + q).no_duplicates()
    &&& forall|i: int| 0 <= i < (out + q).len() ==> ((out + q)[i] as nat) < t.size()
}

proof fn lemma_bfs_step<T>(t: &Tree<T>, out: Seq<usize>, q: Seq<usize>, fuel: nat)
    requires
        t.wf(),
        bfs_inv(t, out, q),
        out.len() + fuel >= t.size(),
    ensures
        ({
            let r = out + t.bfs(q, fuel);
            &&& r.no_duplicates()
            &&& r == seq![ROOT] + t.kids_of(r)
            &&& forall|i: int| 0 <= i < r.len() ==> (r[i] as nat) < t.size()
        }),
    decreases fuel,
{
    let n = t.size();
    lemma_unique_below_len(out + q, n);
    if q.len() == 0 {
        assert(out + q =~= out);
        assert(out + t.bfs(q, fuel) =~= out);
    } else {
        assert(fuel > 0);
        let cur = q[0];
        assert((out + q)[out.len() as int] == cur);
        let ks = t.kids(cur as int);
        let out2 = out.push(cur);
        let q2 = q.drop_first() + ks;
        assert(t.kids_of(out2) =~= t.kids_of(out) + ks) by {
            assert(out2.drop_last() =~= out);
        }
        assert(out2 + q2 =~= (out + q) + ks);
        assert(out2 + q2 =~= seq![ROOT] + t.kids_of(out2));
        assert forall|j: int| 0 <= j < ks.len() implies !(out + q).contains(#[trigger] ks[j]) by {
            let c = ks[j];
            assert(0 < c < n && t.parent@[c as int] == cur as int);
            if (out + q).contains(c) {
                let i = choose|i: int| 0 <= i < (out + q).len() && (out + q)[i] == c;
                assert((seq![ROOT] + t.kids_of(out))[i] == c);
                assert(i >= 1);
                lemma_kids_of_from(t, out, i - 1);
                let k = choose|k: int| 0 <= k < out.len() && #[trigger] t.kids(out[k] as int).contains(t.kids_of(out)[i - 1]);
                let jj = choose|jj: int| 0 <= jj < t.kids(out[k] as int).len() && t.kids(out[k] as int)[jj] == c;
                assert((out + q)[k] == out[k]);
                assert(t.nodes@[out[k] as int].children@[jj] == c);
                assert(t.parent@[c as int] == out[k] as int);
                assert((out + q)[out.len() as int] == cur);
            }
        }
        assert(ks.no_duplicates());
        assert forall|a: int, b: int| 0 <= a < (out2 + q2).len() && 0 <= b < (out2 + q2).len() && a != b
            implies (out2 + q2)[a] != (out2 + q2)[b] by {
            let m = (out + q).len() as int;
            if a >= m && b < m {
                assert((out2 + q2)[a] == ks[a - m]);
                assert((out2 + q2)[b] == (out + q)[b]);
            } else if a < m && b >= m {
                assert((out2 + q2)[b] == ks[b - m]);
                assert((out2 + q2)[a] == (out + q)[a]);
            } else if a >= m && b >= m {
                assert((out2 + q2)[a] == ks[a - m]);
                assert((out2 + q2)[b] == ks[b - m]);
            } else {
                assert((out2 + q2)[a] == (out + q)[a]);
                assert((out2 + q2)[b] == (out + q)[b]);
            }
        }
        assert forall|i: int| 0 <= i < (out2 + q2).len() implies ((out2 + q2)[i] as nat) < n by {
            let m = (out + q).len() as int;
            if i >= m {
                assert((out2 + q2)[i] == ks[i - m]);
            } else {
                assert((out2 + q2)[i] == (out + q)[i]);
            }
        }
        lemma_bfs_step(t, out2, q2, (fuel - 1) as nat);
        assert(t.bfs(q, fuel) == seq![cur] + t.bfs(q2, (fuel - 1) as nat));
        assert(out + t.bfs(q, fuel) =~= out2 + t.bfs(q2, (fuel - 1) as nat));
    }
}

proof fn lemma_level_order_in_range<T>(t: &Tree<T>)
    requires
        t.wf(),
    ensures
        forall|i: int| 0 <= i < t.level_order().len() ==> t.level_order()[i] < t.size(),
{
    let out = Seq::<usize>::empty();
    let q = seq![ROOT];
    assert(t.kids_of(out) =~= Seq::<usize>::empty());
    assert(out + q =~= seq![ROOT] + t.kids_of(out));
    lemma_bfs_step(t, out, q, t.size());
    assert(out + t.bfs(q, t.size()) =~= t.level_order());
}

/// Level order visits every node of a well-formed tree exactly once: its
/// indices are all in the tree, none occurs twice, and each node occurs. It
/// is the root followed by the children of each visited node, node by node,
/// in attachment order.
pub proof fn lemma_level_order_visits_each_once<T>(t: &Tree<T>)
    requires
        t.wf(),
    ensures
        t.level_order().no_duplicates(),
        forall|i: int| 0 <= i < t.level_order().len() ==> t.level_order()[i] < t.size(),
        forall|c: usize| c < t.size() ==> t.level_order().contains(c),
        t.level_order().len() == t.size(),
        t.level_order() == seq![ROOT] + t.kids_of(t.level_order()),
{
    let out = Seq::<usize>::empty();
    let q = seq![ROOT];
    assert(t.kids_of(out) =~= Seq::<usize>::empty());
    assert(out + q =~= seq![ROOT] + t.kids_of(out));
    lemma_bfs_step(t, out, q, t.size());
    let r = t.level_order();
    assert(out + t.bfs(q, t.size()) =~= r);
    assert forall|c: usize| c < t.size() implies r.contains(c) by {
        lemma_every_node_reached(t, r, c);
    }
    lemma_unique_below_len(r, t.size());
    if r.len() < t.size() {
        // every index below the size occurs, so there are at least that many
        let all = Seq::new(t.size(), |i: int| i as usize);
        assert(forall|i: int| 0 <= i < all.len() ==> r.contains(all[i]));
        assert(t.nodes.len() == t.nodes@.len());
        lemma_covering_len(r, t.size());
    }
}

/// A sequence that holds every index below `n` has at least `n` elements.
proof fn lemma_covering_len(r: Seq<usize>, n: nat)
    requires
        n <= usize::MAX,
        forall|c: usize| (c as nat) < n ==> r.contains(c),
    ensures
        r.len() >= n,
    decreases n,
{
    if n > 0 {
        let m = (n - 1) as usize;
        assert((m as nat) < n);
        assert(r.contains(m));
        let k = choose|k: int| 0 <= k < r.len() && r[k] == m;
        let r2 = r.remove(k);
        assert forall|c: usize| (c as nat) < n - 1 implies r2.contains(c) by {
            assert((c as nat) < n);
            assert(r.contains(c));
            let i = choose|i: int| 0 <= i < r.len() && r[i] == c;
            assert(i != k);
            if i < k {
                assert(r2[i] == c);
            } else {
                assert(r2[i - 1] == c);
            }
        }
        lemma_covering_len(r2, (n - 1) as nat);
    }
}

/// In a sequence that is the root followed by the children of its own
/// elements, every node of the tree occurs.
proof fn lemma_every_node_reached<T>(t: &Tree<T>, r: Seq<usize>, c: usize)
    requires
        t.wf(),
        r == seq![ROOT] + t.kids_of(r),
        c < t.size(),
    ensures
        r.contains(c),
    decreases c,
{
    if c == 0 {
        assert(r[0] == ROOT);
    } else {
        let p = t.parent@[c as int];
        assert(0 <= p < c);
        lemma_every_node_reached(t, r, p as usize);
        let k = choose|k: int| 0 <= k < r.len() && r[k] == p as usize;
        assert(t.kids(p).contains(c));
        let j = choose|j: int| 0 <= j < t.kids(p).len() && t.kids(p)[j] == c;
        lemma_kids_of_contains(t, r, k, j);
        let i = choose|i: int| 0 <= i < t.kids_of(r).len() && t.kids_of(r)[i] == c;
        assert(r[i + 1] == c);
    }
}

} // verus!
