//! The supervision tree: who is registered, and who is whose child.

use std::collections::HashMap;
use std::sync::Arc;
use tokio_util::sync::CancellationToken;
use vstd::prelude::*;

use crate::event::copy_ids;
use crate::handle::DepthProbe;
use crate::id::ActorId;
use crate::stats::ActorStats;
use crate::status::{status_from, ActorNode, ActorStatus, Reading};

verus! {

broadcast use crate::id::lemma_id_is_its_number;

// ---------------------------------------------------------------------------
// Model
// ---------------------------------------------------------------------------

/// What the tree knows of one actor.
pub struct Node {
    pub name: Seq<char>,
    pub parent: Option<ActorId>,
    pub children: Seq<ActorId>,
    pub restarts: u32,
    pub token: CancellationToken,
    pub stats: ActorStats,
    /// Whether the mailbox was read to hold so many messages.
    pub depth_reads: spec_fn(usize) -> bool,
}

impl Node {
    /// This was read of the actor: its token, its counters, its mailbox and the
    /// clock, one after the other. It is found dead only if it was told to stop.
    pub open spec fn read_as(self, r: Reading) -> bool {
        &&& crate::outside::cancel_read(self.token, !r.alive)
        &&& !r.alive ==> crate::cascade::told_to_stop(self.token)
        &&& (self.depth_reads)(r.snapshot.mailbox_depth)
        &&& self.stats.reports(r.snapshot.mailbox_depth, r.snapshot)
        &&& r.snapshot.idle_read(r.idle)
    }

    /// The same actor with one more child.
    pub open spec fn with_child(self, id: ActorId) -> Node {
        Node { children: self.children.push(id), ..self }
    }

    /// The same actor without the child `id`.
    pub open spec fn without_child(self, id: ActorId) -> Node {
        Node { children: without(self.children, id), ..self }
    }
}

/// The ids other than `id`, in their order.
pub open spec fn without(ids: Seq<ActorId>, id: ActorId) -> Seq<ActorId> {
    ids.filter(|c: ActorId| c != id)
}

/// The tree as a map from the registered actors.
pub type Tree = Map<ActorId, Node>;

/// The tree with `id` added to the children of `parent`, if that is registered.
pub open spec fn linked_under(t: Tree, parent: Option<ActorId>, id: ActorId) -> Tree {
    match parent {
        Some(p) => if t.contains_key(p) {
            t.insert(p, t[p].with_child(id))
        } else {
            t
        },
        None => t,
    }
}

/// The tree with `id` taken out of the children of `parent`, if that is
/// registered.
pub open spec fn unlinked_from(t: Tree, parent: Option<ActorId>, id: ActorId) -> Tree {
    match parent {
        Some(p) => if t.contains_key(p) {
            t.insert(p, t[p].without_child(id))
        } else {
            t
        },
        None => t,
    }
}

/// The tree after `id` has been registered.
pub open spec fn registered(t: Tree, id: ActorId, node: Node) -> Tree {
    linked_under(t, node.parent, id).insert(id, node)
}

/// The tree after `id` has been taken out.
pub open spec fn deregistered(t: Tree, id: ActorId) -> Tree {
    if t.contains_key(id) {
        unlinked_from(t.remove(id), t[id].parent, id)
    } else {
        t
    }
}

/// The tree after the restarts of `id` have been set to `n`.
pub open spec fn restarted(t: Tree, id: ActorId, n: u32) -> Tree {
    if t.contains_key(id) {
        t.insert(id, Node { restarts: n, ..t[id] })
    } else {
        t
    }
}

/// Parents are older than their children: their ids are smaller. No parent
/// chain and no chain of children can then run in a circle.
pub open spec fn ordered(t: Tree) -> bool {
    &&& forall|id: ActorId| #[trigger]
        t.contains_key(id) ==> (t[id].parent matches Some(p) ==> p@ < id@)
    &&& forall|id: ActorId, i: int|
        t.contains_key(id) && 0 <= i < t[id].children.len() ==> id@ < (
        #[trigger] t[id].children[i])@
}

/// An actor may enter the tree under `id` with this node without upsetting the
/// order.
pub open spec fn fits(id: ActorId, node: Node) -> bool {
    &&& (node.parent matches Some(p) ==> p@ < id@)
    &&& forall|i: int| 0 <= i < node.children.len() ==> id@ < (#[trigger] node.children[i])@
}

/// Parent links and child lists tell the same story: `c` is listed once among
/// the children of `id` exactly when `c` is registered with `id` as its parent.
pub open spec fn linked(t: Tree) -> bool {
    &&& forall|id: ActorId| #[trigger] t.contains_key(id) ==> t[id].children.no_duplicates()
    &&& forall|id: ActorId, c: ActorId|
        t.contains_key(id) ==> (#[trigger] t[id].children.contains(c) <==> t.contains_key(c)
            && t[c].parent == Some(id))
}

/// Nothing in the tree mentions `id`.
pub open spec fn unknown(t: Tree, id: ActorId) -> bool {
    &&& !t.contains_key(id)
    &&& forall|other: ActorId| #[trigger] t.contains_key(other) ==> t[other].parent != Some(id)
}

/// The actor is neither registered nor listed as anybody's child.
pub open spec fn unlisted(t: Tree, id: ActorId) -> bool {
    &&& !t.contains_key(id)
    &&& forall|a: ActorId| #[trigger] t.contains_key(a) ==> !t[a].children.contains(id)
}

/// The parent of a registered actor.
pub open spec fn parent_of(t: Tree, id: ActorId) -> Option<ActorId> {
    if t.contains_key(id) {
        t[id].parent
    } else {
        None
    }
}

/// The parent chain of `id`, nearest first. It ends with an actor that has no
/// parent, or with one that is no longer registered.
pub open spec fn ancestry_of(t: Tree, id: ActorId) -> Seq<ActorId>
    decreases id@,
    when ordered(t)
{
    match parent_of(t, id) {
        Some(p) => seq![p] + ancestry_of(t, p),
        None => seq![],
    }
}

/// Those of `ids` that are registered, in their order.
pub open spec fn live_among(t: Tree, ids: Seq<ActorId>) -> Seq<ActorId> {
    ids.filter(|c: ActorId| t.contains_key(c))
}

/// The children of `id` that are registered, in the order in which they came.
pub open spec fn live_children(t: Tree, id: ActorId) -> Seq<ActorId> {
    live_among(t, t[id].children)
}

/// The picture `n` shows the actor `id` with its registered descendants.
pub open spec fn pictures(t: Tree, id: ActorId, n: ActorNode) -> bool
    decreases n,
{
    let live = live_children(t, id);
    &&& t.contains_key(id)
    &&& n.status.describes(id, t[id])
    &&& n.children@.len() == live.len()
    &&& forall|i: int| 0 <= i < live.len() ==> pictures(t, live[i], #[trigger] n.children@[i])
}

/// The actors without a parent.
pub open spec fn is_root(t: Tree, id: ActorId) -> bool {
    t.contains_key(id) && t[id].parent is None
}

/// `nodes` picture `roots`, one each, and `roots` are the actors without a
/// parent, each once.
pub open spec fn is_forest(t: Tree, roots: Seq<ActorId>, nodes: Seq<ActorNode>) -> bool {
    &&& roots.no_duplicates()
    &&& forall|id: ActorId| #[trigger] roots.contains(id) <==> is_root(t, id)
    &&& nodes.len() == roots.len()
    &&& forall|i: int| 0 <= i < roots.len() ==> pictures(t, roots[i], #[trigger] nodes[i])
}

// ---------------------------------------------------------------------------
// The tree itself
// ---------------------------------------------------------------------------

/// Type-erased lifecycle record of one supervised actor.
pub struct SupervisedEntry {
    pub name: Arc<str>,
    pub parent: Option<ActorId>,
    pub children: Vec<ActorId>,
    pub token: CancellationToken,
    pub stats: Arc<ActorStats>,
    pub restarts: u32,
    /// Reads the live mailbox depth.
    pub depth_probe: Box<dyn DepthProbe>,
}

impl View for SupervisedEntry {
    type V = Node;

    open spec fn view(&self) -> Node {
        Node {
            name: self.name@,
            parent: self.parent,
            children: self.children@,
            restarts: self.restarts,
            token: self.token,
            stats: *self.stats,
            depth_reads: |depth: usize| self.depth_probe.reads(depth),
        }
    }
}

/// All registered actors, by id.
pub struct SupervisionTree {
    entries: HashMap<u64, SupervisedEntry>,
}

impl View for SupervisionTree {
    type V = Tree;

    closed spec fn view(&self) -> Tree {
        Map::new(
            |id: ActorId| self.entries@.contains_key(id@),
            |id: ActorId| self.entries@[id@]@,
        )
    }
}

impl SupervisionTree {
    /// A tree without actors.
    pub fn new() -> (tree: SupervisionTree)
        ensures
            tree@ == Map::<ActorId, Node>::empty(),
    {
        let tree = SupervisionTree { entries: HashMap::new() };
        assert(tree@ =~= Map::<ActorId, Node>::empty());
        tree
    }

    /// Enter an actor into the tree and list it under its parent.
    pub fn register(&mut self, id: ActorId, entry: SupervisedEntry)
        ensures
            final(self)@ == registered(old(self)@, id, entry@),
    {
        broadcast use vstd::std_specs::hash::group_hash_axioms;
        let ghost before = self@;
        if let Some(parent) = entry.parent {
            if let Some(p) = self.entries.remove(&parent.value()) {
                let mut p = p;
                p.children.push(id);
                self.entries.insert(parent.value(), p);
            }
        }
        assert(self@ =~= linked_under(before, entry.parent, id));
        self.entries.insert(id.value(), entry);
        assert(self@ =~= registered(before, id, entry@));
    }

    /// Take an actor out of the tree and out of its parent's list.
    pub fn deregister(&mut self, id: ActorId)
        ensures
            final(self)@ == deregistered(old(self)@, id),
    {
        broadcast use vstd::std_specs::hash::group_hash_axioms;
        let ghost before = self@;
        if let Some(entry) = self.entries.remove(&id.value()) {
            assert(self@ =~= before.remove(id));
            if let Some(parent) = entry.parent {
                if let Some(p) = self.entries.remove(&parent.value()) {
                    let mut p = p;
                    p.children = others(&p.children, id);
                    self.entries.insert(parent.value(), p);
                }
            }
        }
        assert(self@ =~= deregistered(before, id));
    }

    /// Set the number of restarts of an actor, if it is registered.
    pub fn note_restarts(&mut self, id: ActorId, n: u32)
        ensures
            final(self)@ == restarted(old(self)@, id, n),
    {
        broadcast use vstd::std_specs::hash::group_hash_axioms;
        let ghost before = self@;
        if let Some(e) = self.entries.remove(&id.value()) {
            let mut e = e;
            e.restarts = n;
            self.entries.insert(id.value(), e);
        }
        assert(self@ =~= restarted(before, id, n));
    }

    /// Parent chain from `id` (left out) up to the root, nearest first.
    pub fn ancestry(&self, id: ActorId) -> (chain: Vec<ActorId>)
        requires
            ordered(self@),
        ensures
            chain@ == ancestry_of(self@, id),
    {
        let mut out: Vec<ActorId> = Vec::new();
        let mut below = id;
        let mut cur = self.parent(id);
        while cur.is_some()
            invariant
                ordered(self@),
                cur == parent_of(self@, below),
                out@ + ancestry_of(self@, below) == ancestry_of(self@, id),
            decreases below@,
        {
            let p = cur.unwrap();
            out.push(p);
            assert(out@.drop_last() + (seq![p] + ancestry_of(self@, p)) =~= out@ + ancestry_of(
                self@,
                p,
            ));
            below = p;
            cur = self.parent(p);
        }
        assert(out@ + ancestry_of(self@, below) =~= out@);
        out
    }

    /// Whether an actor is registered.
    pub fn contains(&self, id: ActorId) -> (b: bool)
        ensures
            b == self@.contains_key(id),
    {
        broadcast use vstd::std_specs::hash::group_hash_axioms;
        self.entries.contains_key(&id.value())
    }

    /// The children listed under an actor; `None` if it is not registered.
    pub fn children(&self, id: ActorId) -> (r: Option<Vec<ActorId>>)
        ensures
            r is Some <==> self@.contains_key(id),
            r matches Some(ids) ==> ids@ == self@[id].children,
    {
        broadcast use vstd::std_specs::hash::group_hash_axioms;
        match self.entries.get(&id.value()) {
            Some(e) => Some(copy_ids(&e.children)),
            None => None,
        }
    }

    /// The token of a registered actor.
    pub fn token(&self, id: ActorId) -> (r: Option<CancellationToken>)
        ensures
            r == if self@.contains_key(id) {
                Some(self@[id].token)
            } else {
                None
            },
    {
        broadcast use vstd::std_specs::hash::group_hash_axioms;
        match self.entries.get(&id.value()) {
            Some(e) => Some(e.token.clone()),
            None => None,
        }
    }

    /// The actors without a parent, each once, in no particular order.
    pub fn roots(&self) -> (ids: Vec<ActorId>)
        ensures
            ids@.no_duplicates(),
            forall|id: ActorId| #[trigger] ids@.contains(id) <==> is_root(self@, id),
    {
        broadcast use vstd::std_specs::hash::group_hash_axioms;
        let mut out: Vec<ActorId> = Vec::new();
        for k in it: self.entries.keys()
            invariant
                it.seq().unref().to_set() == self.entries@.dom(),
                it.seq().no_duplicates(),
                out@.no_duplicates(),
                forall|id: ActorId| #[trigger]
                    out@.contains(id) <==> is_root(self@, id) && seen_before(
                        it.seq().unref(),
                        it.index() as int,
                        id,
                    ),
        {
            broadcast use vstd::std_specs::hash::group_hash_axioms;
            let id = ActorId::from_value(*k);
            let ghost keys = it.seq().unref();
            let ghost i = it.index() as int;
            let ghost before = out@;
            proof {
                assert(keys[i] == id@);
                assert(keys.to_set().contains(keys[i]));
                assert(self@.contains_key(id));
                assert(!seen_before(keys, i, id)) by {
                    assert forall|j: int| 0 <= j < i implies keys[j] != id@ by {
                        assert(it.seq()[j] != it.seq()[i]);
                    }
                }
                assert forall|other: ActorId| seen_before(keys, i + 1, other) <==> seen_before(
                    keys,
                    i,
                    other,
                ) || other == id by {
                    if other == id {
                        assert(keys[i] == other@);
                    }
                }
            }
            if self.parent(id).is_none() {
                out.push(id);
                proof {
                    assert(!before.contains(id));
                    assert forall|other: ActorId| #[trigger] out@.contains(other) <==> (
                    before.contains(other) || other == id) by {
                        if other == id {
                            assert(out@[before.len() as int] == id);
                        }
                        if before.contains(other) {
                            let j = before.index_of(other);
                            assert(out@[j] == other);
                        }
                    }
                }
            }
        }
        proof {
            assert forall|id: ActorId| #[trigger] out@.contains(id) <==> is_root(self@, id) by {
                if is_root(self@, id) {
                    assert(self.entries@.dom().contains(id@));
                }
            }
        }
        out
    }

    /// Status of one actor; `None` if it is not registered.
    pub fn snapshot_actor(&self, id: ActorId) -> (r: Option<ActorStatus>)
        ensures
            r is Some <==> self@.contains_key(id),
            r matches Some(s) ==> s.describes(id, self@[id]),
    {
        broadcast use vstd::std_specs::hash::group_hash_axioms;
        match self.entries.get(&id.value()) {
            Some(e) => Some(status_of(id, e)),
            None => None,
        }
    }

    /// Picture of a registered actor and of its registered descendants.
    pub fn build_node(&self, id: ActorId) -> (n: ActorNode)
        requires
            ordered(self@),
            self@.contains_key(id),
        ensures
            pictures(self@, id, n),
        decreases u64::MAX - id@,
    {
        broadcast use vstd::std_specs::hash::group_hash_axioms;
        let e = self.entries.get(&id.value()).unwrap();
        let mut nodes: Vec<ActorNode> = Vec::new();
        proof {
            reveal(Seq::filter);
        }
        for i in 0..e.children.len()
            invariant
                ordered(self@),
                self@.contains_key(id),
                e@ == self@[id],
                nodes@.len() == live_among(self@, e.children@.take(i as int)).len(),
                forall|j: int|
                    0 <= j < nodes@.len() ==> pictures(
                        self@,
                        live_among(self@, e.children@.take(i as int))[j],
                        #[trigger] nodes@[j],
                    ),
        {
            let c = e.children[i];
            let ghost seen = e.children@.take(i as int);
            assert(id@ < self@[id].children[i as int]@);
            proof {
                reveal(Seq::filter);
                assert(e.children@.take(i + 1).drop_last() =~= seen);
            }
            if self.contains(c) {
                nodes.push(self.build_node(c));
            }
        }
        assert(e.children@.take(e.children@.len() as int) =~= e.children@);
        ActorNode { status: status_of(id, e), children: nodes }
    }

    /// The whole forest: one picture per actor without a parent.
    pub fn snapshot_forest(&self) -> (nodes: Vec<ActorNode>)
        requires
            ordered(self@),
        ensures
            exists|roots: Seq<ActorId>| #[trigger] is_forest(self@, roots, nodes@),
    {
        let roots = self.roots();
        let mut nodes: Vec<ActorNode> = Vec::new();
        for i in 0..roots.len()
            invariant
                ordered(self@),
                forall|id: ActorId| #[trigger] roots@.contains(id) <==> is_root(self@, id),
                nodes@.len() == i,
                forall|j: int|
                    0 <= j < i ==> pictures(self@, roots@[j], #[trigger] nodes@[j]),
        {
            assert(roots@.contains(roots@[i as int]));
            nodes.push(self.build_node(roots[i]));
        }
        assert(is_forest(self@, roots@, nodes@));
        nodes
    }

    /// The parent of a registered actor.
    pub fn parent(&self, id: ActorId) -> (p: Option<ActorId>)
        ensures
            p == parent_of(self@, id),
    {
        broadcast use vstd::std_specs::hash::group_hash_axioms;
        match self.entries.get(&id.value()) {
            Some(e) => e.parent,
            None => None,
        }
    }
}

/// Status of a registered actor: what the tree knows of it and what can be read
/// of it at the moment.
pub fn status_of(id: ActorId, e: &SupervisedEntry) -> (s: ActorStatus)
    ensures
        s.describes(id, e@),
        !s.alive ==> crate::cascade::told_to_stop(e.token),
        s.idle_ms is None ==> s.message_count == 0 && !s.busy,
{
    let snapshot = e.stats.snapshot(e.depth_probe.depth());
    let reading = Reading {
        alive: !e.token.is_cancelled(),
        snapshot,
        idle: snapshot.idle_for(),
    };
    assert(e@.read_as(reading));
    status_from(id, &e.name, e.parent, e.restarts, reading)
}

/// The number of `id` is among the first `n` keys.
spec fn seen_before(keys: Seq<u64>, n: int, id: ActorId) -> bool {
    exists|j: int| 0 <= j < n && #[trigger] keys[j] == id@
}

/// The ids other than `id`.
fn others(ids: &Vec<ActorId>, id: ActorId) -> (kept: Vec<ActorId>)
    ensures
        kept@ == without(ids@, id),
{
    let mut kept: Vec<ActorId> = Vec::new();
    proof {
        reveal(Seq::filter);
    }
    for i in 0..ids.len()
        invariant
            kept@ == without(ids@.take(i as int), id),
    {
        if ids[i] != id {
            kept.push(ids[i]);
        }
        proof {
            reveal(Seq::filter);
            assert(ids@.take(i + 1).drop_last() =~= ids@.take(i as int));
        }
    }
    assert(ids@.take(ids@.len() as int) =~= ids@);
    kept
}

} // verus!
