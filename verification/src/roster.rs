//! The supervision tree together with the youngest actor that ever entered it.
//!
//! Whoever enters the tree is younger than everybody who was in it before, so no
//! id ever enters twice, and parent links and child lists always agree.

use vstd::prelude::*;

use crate::id::{ActorId, IdSequence};
use crate::tree::{Node, SupervisedEntry, SupervisionTree, Tree};

verus! {

broadcast use crate::id::lemma_id_is_its_number;

/// The supervision tree, and the number of the youngest actor that ever entered
/// it.
pub struct Roster {
    tree: SupervisionTree,
    youngest: Option<u64>,
}

/// What a roster holds.
pub struct RosterView {
    pub tree: Tree,
    pub youngest: Option<u64>,
}

impl View for Roster {
    type V = RosterView;

    closed spec fn view(&self) -> RosterView {
        RosterView { tree: self.tree@, youngest: self.youngest }
    }
}

impl RosterView {
    /// Parents are older than their children, parent links and child lists agree,
    /// and nobody is younger than the youngest.
    pub open spec fn sound(self) -> bool {
        &&& crate::tree::ordered(self.tree)
        &&& crate::tree::linked(self.tree)
        &&& forall|id: ActorId| #[trigger]
            self.tree.contains_key(id) ==> (self.youngest matches Some(y) && id@ <= y)
    }

    /// An actor enters under a number above that of the youngest and of its parent,
    /// and is then the youngest.
    pub open spec fn enters_to(self, after: RosterView, id: ActorId, node: Node) -> bool {
        &&& least_after(self.youngest) <= id@
        &&& node.parent matches Some(p) ==> p@ < id@
        &&& node.children.len() == 0
        &&& after.tree == crate::tree::registered(self.tree, id, node)
        &&& after.youngest == Some(id@)
    }

    /// An actor leaves.
    pub open spec fn leaves_to(self, after: RosterView, id: ActorId) -> bool {
        &&& after.tree == crate::tree::deregistered(self.tree, id)
        &&& after.youngest == self.youngest
    }

    /// The restarts of an actor are noted.
    pub open spec fn notes_to(self, after: RosterView, id: ActorId, n: u32) -> bool {
        &&& after.tree == crate::tree::restarted(self.tree, id, n)
        &&& after.youngest == self.youngest
    }

    /// One change: somebody enters or leaves, restarts are noted, or nothing
    /// happens.
    pub open spec fn changes_to(self, after: RosterView) -> bool {
        ||| after == self
        ||| exists|id: ActorId, node: Node| #[trigger] self.enters_to(after, id, node)
        ||| exists|id: ActorId| #[trigger] self.leaves_to(after, id)
        ||| exists|id: ActorId, n: u32| #[trigger] self.notes_to(after, id, n)
    }
}

/// A change keeps a roster in order, and the youngest that ever entered is never
/// forgotten.
pub proof fn law_changes_keep_the_roster_sound(r: RosterView, after: RosterView)
    requires
        r.sound(),
        r.changes_to(after),
    ensures
        after.sound(),
        least_after(r.youngest) <= least_after(after.youngest),
        forall|id: ActorId| #[trigger]
            after.tree.contains_key(id) ==> r.tree.contains_key(id) || least_after(r.youngest)
                <= id@,
{
    if exists|id: ActorId, node: Node| #[trigger] r.enters_to(after, id, node) {
        let (id, node) = choose|id: ActorId, node: Node| #[trigger] r.enters_to(after, id, node);
        assert(crate::tree::unknown(r.tree, id)) by {
            assert forall|other: ActorId| #[trigger]
                r.tree.contains_key(other) implies r.tree[other].parent != Some(id) by {
                assert(other@ < id@);
            }
        }
        crate::tree_laws::law_register_keeps_order(r.tree, id, node);
        crate::tree_laws::law_register_keeps_links(r.tree, id, node);
    } else if exists|id: ActorId| #[trigger] r.leaves_to(after, id) {
        let id = choose|id: ActorId| #[trigger] r.leaves_to(after, id);
        crate::tree_laws::law_deregister_keeps_order(r.tree, id);
        crate::tree_laws::law_deregister_keeps_links(r.tree, id);
    } else if exists|id: ActorId, n: u32| #[trigger] r.notes_to(after, id, n) {
        let (id, n) = choose|id: ActorId, n: u32| #[trigger] r.notes_to(after, id, n);
        crate::tree_laws::law_restart_is_one_for_one(r.tree, id, n);
        assert forall|a: ActorId| #[trigger] after.tree.contains_key(a) implies r.tree.contains_key(
            a,
        ) by {
            assert(after.tree.dom().contains(a));
        }
    }
}

/// A roster as it was found from one change to the next.
pub open spec fn is_history(states: Seq<RosterView>) -> bool {
    &&& states.len() > 0
    &&& states[0].sound()
    &&& forall|i: int|
        0 < i < states.len() ==> (#[trigger] states[i - 1]).changes_to(states[i])
}

/// Gone for good: an actor that was in the tree and at some later moment is not any
/// more never comes back. From then on it is neither registered nor listed as
/// anybody's child, whatever else changes.
pub proof fn law_gone_for_good(states: Seq<RosterView>, id: ActorId, gone: int, later: int)
    requires
        is_history(states),
        states[0].tree.contains_key(id),
        0 <= gone <= later < states.len(),
        !states[gone].tree.contains_key(id),
    ensures
        crate::tree::unlisted(states[later].tree, id),
    decreases later,
{
    lemma_history(states, later);
    if later > gone {
        law_gone_for_good(states, id, gone, later - 1);
        lemma_history(states, later - 1);
        assert(states[later - 1].changes_to(states[later]));
        law_changes_keep_the_roster_sound(states[later - 1], states[later]);
        assert(id@ < least_after(states[0].youngest));
    }
    let t = states[later].tree;
    assert forall|a: ActorId| #[trigger] t.contains_key(a) implies !t[a].children.contains(id) by {
        assert(t[a].children.contains(id) ==> t.contains_key(id));
    }
}

proof fn lemma_history(states: Seq<RosterView>, n: int)
    requires
        is_history(states),
        0 <= n < states.len(),
    ensures
        states[n].sound(),
        least_after(states[0].youngest) <= least_after(states[n].youngest),
    decreases n,
{
    if n > 0 {
        lemma_history(states, n - 1);
        assert(states[n - 1].changes_to(states[n]));
        law_changes_keep_the_roster_sound(states[n - 1], states[n]);
    }
}

/// The least number after `n`; the least of all without one.
pub open spec fn least_after(n: Option<u64>) -> int {
    match n {
        Some(n) => n + 1,
        None => 0,
    }
}

/// The number of the next actor: the first from `next` on that is above those of
/// the youngest actor and of its own parent; `None` if the numbers have run out.
pub open spec fn first_fresh(
    next: u64,
    youngest: Option<u64>,
    parent: Option<ActorId>,
) -> Option<u64> {
    let above_youngest = least_after(youngest);
    let above_parent = match parent {
        Some(p) => least_after(Some(p@)),
        None => 0,
    };
    let above = if above_youngest > above_parent {
        above_youngest
    } else {
        above_parent
    };
    let least = if next > above {
        next as int
    } else {
        above
    };
    if least <= u64::MAX {
        Some(least as u64)
    } else {
        None
    }
}

/// Find the number of the next actor.
pub fn fresh_number(next: u64, youngest: Option<u64>, parent: Option<ActorId>) -> (n: Option<u64>)
    ensures
        n == first_fresh(next, youngest, parent),
{
    let mut least: u64 = next;
    if let Some(y) = youngest {
        if y >= least {
            if y == u64::MAX {
                return None;
            }
            least = y + 1;
        }
    }
    if let Some(p) = parent {
        if p.value() >= least {
            if p.value() == u64::MAX {
                return None;
            }
            least = p.value() + 1;
        }
    }
    Some(least)
}

/// The next actor is new to the tree: nothing in it mentions its id, and its
/// parent is older.
pub proof fn law_next_actor_is_unknown(
    r: RosterView,
    next: u64,
    parent: Option<ActorId>,
    id: ActorId,
)
    requires
        r.sound(),
        first_fresh(next, r.youngest, parent) == Some(id@),
    ensures
        crate::tree::unknown(r.tree, id),
        parent matches Some(p) ==> p@ < id@,
        r.youngest matches Some(y) ==> y < id@,
{
}

/// As long as all ids come from one sequence, the next actor simply gets the next
/// number.
pub proof fn law_next_number_is_taken(next: u64, youngest: Option<u64>, parent: Option<ActorId>)
    requires
        youngest matches Some(y) ==> y < next,
        parent matches Some(p) ==> p@ < next,
    ensures
        first_fresh(next, youngest, parent) == Some(next),
{
}

impl Roster {
    /// A roster without actors.
    pub fn new() -> (r: Roster)
        ensures
            r@.tree == Map::<ActorId, Node>::empty(),
            r@.youngest is None,
            r@.sound(),
    {
        Roster { tree: SupervisionTree::new(), youngest: None }
    }

    /// The tree.
    pub fn tree(&self) -> (t: &SupervisionTree)
        ensures
            t@ == self@.tree,
    {
        &self.tree
    }

    /// Draw an id for an actor and enter it into the tree under that id; `None` if
    /// the ids have run out.
    pub fn enter(&mut self, ids: &mut IdSequence, entry: SupervisedEntry) -> (r: Option<ActorId>)
        requires
            old(self)@.sound(),
            entry.children@.len() == 0,
        ensures
            match r {
                Some(id) => {
                    &&& first_fresh(old(ids)@, old(self)@.youngest, entry.parent) == Some(id@)
                    &&& final(ids)@ == crate::id::successor(id@)
                    &&& final(self)@.tree == crate::tree::registered(old(self)@.tree, id, entry@)
                    &&& final(self)@.youngest == Some(id@)
                    &&& final(self)@.sound()
                    &&& old(self)@.enters_to(final(self)@, id, entry@)
                },
                None => {
                    &&& first_fresh(old(ids)@, old(self)@.youngest, entry.parent) is None
                    &&& final(ids)@ == old(ids)@
                    &&& *final(self) == *old(self)
                },
            },
    {
        match fresh_number(ids.upcoming(), self.youngest, entry.parent) {
            Some(n) => {
                ids.advance_to(n);
                let id = ActorId::next(ids);
                proof {
                    law_next_actor_is_unknown(self@, old(ids)@, entry.parent, id);
                    crate::tree_laws::law_register_keeps_order(self@.tree, id, entry@);
                    crate::tree_laws::law_register_keeps_links(self@.tree, id, entry@);
                }
                self.tree.register(id, entry);
                self.youngest = Some(n);
                Some(id)
            },
            None => None,
        }
    }

    /// Take an actor out of the tree.
    pub fn leave(&mut self, id: ActorId)
        ensures
            final(self)@.tree == crate::tree::deregistered(old(self)@.tree, id),
            final(self)@.youngest == old(self)@.youngest,
            old(self)@.leaves_to(final(self)@, id),
            old(self)@.sound() ==> final(self)@.sound(),
    {
        proof {
            if self@.sound() {
                crate::tree_laws::law_deregister_keeps_order(self@.tree, id);
                crate::tree_laws::law_deregister_keeps_links(self@.tree, id);
            }
        }
        self.tree.deregister(id);
    }

    /// Record how often an actor has been restarted.
    pub fn note_restarts(&mut self, id: ActorId, n: u32)
        ensures
            final(self)@.tree == crate::tree::restarted(old(self)@.tree, id, n),
            final(self)@.youngest == old(self)@.youngest,
            old(self)@.notes_to(final(self)@, id, n),
            old(self)@.sound() ==> final(self)@.sound(),
    {
        proof {
            crate::tree_laws::law_restart_is_one_for_one(self@.tree, id, n);
        }
        self.tree.note_restarts(id, n);
    }
}

} // verus!
