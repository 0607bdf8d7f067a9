//! The breadth-first crawl, as a state machine. The caller asks for the next
//! action, fetches the address it names, and reports what the fetch gave; the
//! machine grows the tree of discovered addresses one level at a time and
//! says when the crawl is done.
use crate::queue::Queue;
use crate::tree::{Tree, TreeNode, ROOT};
use vstd::prelude::*;

verus! {

/// What fetching one address gave.
pub enum PageOutcome {
    /// A textual page, with the links found in it (possibly none).
    Links(Vec<String>),
    /// A page that is not expanded: another declared type, an unknown type,
    /// or a failed fetch of an address other than the root.
    Terminal,
}

/// What the crawl asks of its caller next.
pub enum CrawlAction {
    /// Fetch this address and report the outcome.
    Fetch(String),
    /// The crawl is over; the tree is complete.
    Done,
}

/// The state of a crawl: the tree so far, the frontier of nodes discovered
/// and not yet fetched, and the level-width counters that tell where one
/// level ends without tagging nodes with their level.
pub struct Crawler {
    tree: Tree<String>,
    frontier: Queue<usize>,
    level_width: usize,
    processed: usize,
    next_width: usize,
    max_depth: usize,
    current: Option<usize>,
    started: bool,
}

/// The indices given to `n` nodes appended to a tree of `size` nodes.
pub open spec fn new_ids(size: nat, n: nat) -> Seq<usize> {
    Seq::new(n, |k: int| (size + k) as usize)
}

impl Crawler {
    /// The tree of discovered addresses.
    pub closed spec fn spec_tree(&self) -> Tree<String> {
        self.tree
    }

    /// The nodes waiting to be fetched, in order.
    pub closed spec fn frontier(&self) -> Seq<usize> {
        self.frontier@
    }

    /// The number of nodes in the level being processed.
    pub closed spec fn level_width(&self) -> nat {
        self.level_width as nat
    }

    /// How many nodes of the level being processed are done.
    pub closed spec fn processed(&self) -> nat {
        self.processed as nat
    }

    /// How many nodes have been discovered for the next level.
    pub closed spec fn next_width(&self) -> nat {
        self.next_width as nat
    }

    /// The depth bound the crawl was started with.
    pub closed spec fn max_depth(&self) -> nat {
        self.max_depth as nat
    }

    /// The node whose fetch is awaited, if any.
    pub closed spec fn current(&self) -> Option<usize> {
        self.current
    }

    /// Whether the root has been handed out.
    pub closed spec fn started(&self) -> bool {
        self.started
    }

    /// The crawl stops when nothing waits, or when, past the root, the tree
    /// has reached the depth bound.
    pub open spec fn finished(&self) -> bool {
        self.frontier().len() == 0 || (self.started() && self.spec_tree().level() >= self.max_depth())
    }

    /// The frontier is made of the newest nodes, in the order they were
    /// made; the counters account for it level by level.
    pub closed spec fn wf(&self) -> bool {
        let size = self.tree.size();
        let f = self.frontier@.len();
        &&& self.tree.wf()
        &&& size <= usize::MAX
        &&& f <= size
        &&& self.frontier@ == new_ids((size - f) as nat, f)
        &&& self.current matches Some(c) ==> c + f < size && self.tree.kids(c as int).len() == 0
        &&& forall|i: int| size - f <= i < size ==> (#[trigger] self.tree.kids(i)).len() == 0
        &&& !self.started ==> {
            &&& self.frontier@ == seq![ROOT]
            &&& size == 1
            &&& self.level_width == 1
            &&& self.processed == 0
            &&& self.next_width == 0
            &&& self.current is None
            &&& self.tree.level() == 1
        }
        &&& self.current is None ==> {
            &&& self.processed <= self.level_width
            &&& f == (self.level_width - self.processed) + self.next_width
            &&& self.processed == self.level_width ==> self.next_width == 0
        }
        &&& self.current is Some ==> {
            &&& self.processed < self.level_width
            &&& f + 1 == (self.level_width - self.processed) + self.next_width
            &&& self.tree.level() < self.max_depth || self.tree.level() == 1
        }
    }

    /// A crawl from `root_url` bounded by `max_depth`: a tree of the root
    /// alone, at depth 1, with the root waiting to be fetched.
    pub fn new(root_url: String, max_depth: usize) -> (r: Self)
        ensures
            r.wf(),
            r.spec_tree().size() == 1,
            r.spec_tree().value_at(ROOT as int) == root_url,
            r.spec_tree().kids(ROOT as int).len() == 0,
            r.spec_tree().level() == 1,
            r.frontier() == seq![ROOT],
            r.level_width() == 1,
            r.processed() == 0,
            r.next_width() == 0,
            r.max_depth() == max_depth,
            r.current() is None,
            !r.started(),
    {
        let tree = Tree::new(TreeNode::new(root_url));
        let mut frontier: Queue<usize> = Queue::new();
        frontier.push(ROOT);
        let r = Crawler {
            tree,
            frontier,
            level_width: 1,
            processed: 0,
            next_width: 0,
            max_depth,
            current: None,
            started: false,
        };
        assert(r.frontier@ =~= new_ids(0, 1));
        r
    }

    /// Whether a fetch has been handed out and its outcome not yet reported.
    pub fn awaiting(&self) -> (r: bool)
        ensures
            r == self.current() is Some,
    {
        self.current.is_some()
    }

    /// The next step: `Done` when the crawl is finished, and nothing changes;
    /// otherwise the head of the frontier leaves it and its address is to be
    /// fetched. The root is always fetched, whatever the depth bound.
    pub fn next_action(&mut self) -> (r: CrawlAction)
        requires
            old(self).wf(),
            old(self).current() is None,
        ensures
            final(self).wf(),
            old(self).finished() ==> r is Done && *final(self) == *old(self),
            !old(self).finished() ==> {
                let id = old(self).frontier()[0];
                &&& r matches CrawlAction::Fetch(url) && url@ == old(self).spec_tree().value_at(id as int)@
                &&& final(self).current() == Some(id)
                &&& final(self).frontier() == old(self).frontier().drop_first()
                &&& final(self).started()
                &&& final(self).spec_tree() == old(self).spec_tree()
                &&& final(self).level_width() == old(self).level_width()
                &&& final(self).processed() == old(self).processed()
                &&& final(self).next_width() == old(self).next_width()
                &&& final(self).max_depth() == old(self).max_depth()
            },
    {
        if self.frontier.is_empty() || (self.started && self.tree.depth() >= self.max_depth) {
            return CrawlAction::Done;
        }
        let ghost f0 = self.frontier@;
        let id = self.frontier.pop().unwrap();
        assert(self.frontier@ =~= new_ids((self.tree.size() - self.frontier@.len()) as nat, self.frontier@.len()));
        let url = self.tree.node(id).value.clone();
        self.current = Some(id);
        self.started = true;
        CrawlAction::Fetch(url)
    }

    /// Whether the links of the awaited page will be used: not when the
    /// depth bound is 0, where the root is fetched but never expanded.
    pub fn wants_links(&self) -> (r: bool)
        ensures
            r == (self.max_depth() > 0),
    {
        self.max_depth > 0
    }

    /// Whether a failed fetch of the awaited page ends the whole crawl: it
    /// does for the root; elsewhere the branch ends and the crawl goes on
    /// once `PageOutcome::Terminal` is reported.
    pub fn failure_aborts(&self) -> (r: bool)
        requires
            self.current() is Some,
        ensures
            r == (self.current() == Some(ROOT)),
    {
        self.current.unwrap() == ROOT
    }

    /// Reports the outcome of the awaited fetch. The links of a textual page
    /// become children of its node, in order, and join the frontier, unless
    /// the depth bound is 0; any other outcome ends that branch. When the
    /// node completes its level, the depth grows by one and the next level
    /// becomes the current one.
    pub fn record(&mut self, outcome: PageOutcome)
        requires
            old(self).wf(),
            old(self).current() is Some,
        ensures
            final(self).wf(),
            ({
                let o = *old(self);
                let f = *final(self);
                let c = o.current()->Some_0 as int;
                let size = o.spec_tree().size();
                let links = match outcome {
                    PageOutcome::Links(v) => if o.max_depth() > 0 { v.deep_view() } else { Seq::empty() },
                    PageOutcome::Terminal => Seq::empty(),
                };
                let ids = new_ids(size, links.len());
                let done = o.processed() + 1;
                let next = o.next_width() + links.len();
                &&& f.current() is None
                &&& f.started() == o.started()
                &&& f.max_depth() == o.max_depth()
                &&& f.spec_tree().wf()
                &&& f.spec_tree().size() == size + links.len()
                &&& forall|i: int| 0 <= i < size ==> #[trigger] f.spec_tree().value_at(i) == o.spec_tree().value_at(i)
                &&& forall|k: int| 0 <= k < links.len() ==> (#[trigger] f.spec_tree().value_at(size + k))@ == links[k]
                &&& forall|k: int| 0 <= k < links.len() ==> (#[trigger] f.spec_tree().kids(size + k)).len() == 0
                &&& f.spec_tree().kids(c) == ids
                &&& forall|i: int| 0 <= i < size && i != c ==> #[trigger] f.spec_tree().kids(i) == o.spec_tree().kids(i)
                &&& f.frontier() == o.frontier() + ids
                &&& if done == o.level_width() {
                    &&& f.spec_tree().level() == o.spec_tree().level() + 1
                    &&& f.level_width() == next
                    &&& f.processed() == 0
                    &&& f.next_width() == 0
                } else {
                    &&& f.spec_tree().level() == o.spec_tree().level()
                    &&& f.level_width() == o.level_width()
                    &&& f.processed() == done
                    &&& f.next_width() == next
                }
            }),
            old(self).max_depth() == 0 ==> final(self).spec_tree().size() == old(self).spec_tree().size(),
    {
        let cur = self.current.unwrap();
        let ghost o = *self;
        let ghost size = self.tree.size();
        let empty: Vec<String> = Vec::new();
        let links = match outcome {
            PageOutcome::Links(v) => if self.max_depth > 0 { v } else { empty },
            PageOutcome::Terminal => empty,
        };
        let ghost dl = links.deep_view();
        let mut i: usize = 0;
        while i < links.len()
            invariant
                o.wf(),
                o.current() == Some(cur),
                size == o.tree.size(),
                dl == links.deep_view(),
                i <= links@.len(),
                self.tree.wf(),
                self.tree.size() == size + i,
                self.tree.size() <= usize::MAX,
                self.tree.level() == o.tree.level(),
                forall|j: int| 0 <= j < size ==> #[trigger] self.tree.value_at(j) == o.tree.value_at(j),
                forall|k: int| 0 <= k < i ==> (#[trigger] self.tree.value_at(size + k))@ == dl[k],
                forall|k: int| 0 <= k < i ==> (#[trigger] self.tree.kids(size + k)).len() == 0,
                self.tree.kids(cur as int) == o.tree.kids(cur as int) + new_ids(size, i as nat),
                forall|j: int| 0 <= j < size && j != cur ==> #[trigger] self.tree.kids(j) == o.tree.kids(j),
                self.frontier@ == o.frontier@ + new_ids(size, i as nat),
                self.next_width == o.next_width + i,
                self.level_width == o.level_width,
                self.processed == o.processed,
                self.current == o.current,
                self.started == o.started,
                self.max_depth == o.max_depth,
            decreases links.len() - i,
        {
            let ghost t0 = self.tree;
            let id = self.tree.push_node(cur, TreeNode::new(links[i].clone()));
            self.frontier.push(id);
            self.next_width = self.next_width + 1;
            i = i + 1;
            assert(new_ids(size, i as nat) =~= new_ids(size, (i - 1) as nat).push(id));
            assert forall|k: int| 0 <= k < i implies (#[trigger] self.tree.value_at(size + k))@ == dl[k] by {
                if k < i - 1 {
                    assert(self.tree.value_at(size + k) == t0.value_at(size + k));
                }
            }
            assert forall|k: int| 0 <= k < i implies (#[trigger] self.tree.kids(size + k)).len() == 0 by {
                if k < i - 1 {
                    assert(self.tree.kids(size + k) == t0.kids(size + k));
                }
            }
            assert(self.tree.kids(cur as int) =~= o.tree.kids(cur as int) + new_ids(size, i as nat));
            assert(self.frontier@ =~= o.frontier@ + new_ids(size, i as nat));
        }
        self.processed = self.processed + 1;
        if self.processed == self.level_width {
            self.tree.close_level();
            self.level_width = self.next_width;
            self.next_width = 0;
            self.processed = 0;
        }
        self.current = None;
        assert forall|j: int| self.tree.size() - self.frontier@.len() <= j < self.tree.size()
            implies (#[trigger] self.tree.kids(j)).len() == 0 by {
            if j < size {
                assert(o.tree.kids(j).len() == 0);
            } else {
                assert(self.tree.kids(size + (j - size)).len() == 0);
            }
        }
        assert(self.frontier@ =~= new_ids((self.tree.size() - self.frontier@.len()) as nat, self.frontier@.len()));
    }

    /// The tree of discovered addresses.
    pub fn tree(&self) -> (r: &Tree<String>)
        requires
            self.wf(),
        ensures
            *r == self.spec_tree(),
            r.wf(),
    {
        &self.tree
    }

    /// Ends the crawl and hands over its tree.
    pub fn into_tree(self) -> (r: Tree<String>)
        requires
            self.wf(),
        ensures
            r == self.spec_tree(),
            r.wf(),
    {
        self.tree
    }
}

} // verus!
