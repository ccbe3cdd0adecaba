//! Looking at the live tree without being able to do anything to it.

use std::sync::Arc;
use vstd::prelude::*;
use vstd::rwlock::RwLock;

use crate::id::ActorId;
use crate::reach::Hand;
use crate::roster::Roster;
use crate::status::{ActorNode, ActorStatus};
use crate::supervisor::{ActorSystem, RosterInv};

verus! {

/// Can look at the tree of one system, and nothing else.
pub struct Lookout {
    board: Hand<Roster, RosterInv>,
    system: Ghost<ActorSystem>,
}

impl Lookout {
    #[verifier::type_invariant]
    closed spec fn inv(&self) -> bool {
        &&& self.board.lock() == self.system@.roster_lock()
        &&& self.board.lock().pred() == (RosterInv { source: self.system@.root_source() })
    }

    /// The system.
    pub closed spec fn system(self) -> ActorSystem {
        self.system@
    }

    pub(crate) fn new(
        roster: Arc<RwLock<Roster, RosterInv>>,
        Ghost(system): Ghost<ActorSystem>,
    ) -> (l: Lookout)
        requires
            *roster == system.roster_lock(),
            roster.pred() == (RosterInv { source: system.root_source() }),
        ensures
            l.system() == system,
    {
        Lookout { board: Hand::new(roster), system: Ghost(system) }
    }

    /// Status of one actor; `None` if it is not registered.
    pub(crate) fn actor(&self, id: ActorId) -> (r: Option<ActorStatus>)
        ensures
            self.system().status_of_seen(id, r),
    {
        proof {
            use_type_invariant(self);
        }
        let f = |r: &Roster| -> (s: Option<ActorStatus>)
            ensures
                s is Some <==> r@.tree.contains_key(id),
                s matches Some(s) ==> s.describes(id, r@.tree[id]),
            { r.tree().snapshot_actor(id) };
        let r = self.board.look(f);
        proof {
            let v = choose|v: Roster| #[trigger]
                crate::shared::found(self.board.lock(), v) && self.board.lock().inv(v)
                    && f.ensures((&v,), r);
            assert(self.system().tree_seen(v@.tree));
        }
        r
    }

    /// Picture of the whole tree.
    pub(crate) fn forest(&self) -> (nodes: Vec<ActorNode>)
        ensures
            self.system().forest_seen(nodes@),
    {
        proof {
            use_type_invariant(self);
        }
        let f = |r: &Roster| -> (nodes: Vec<ActorNode>)
            requires
                r@.sound(),
            ensures
                exists|roots: Seq<ActorId>| #[trigger]
                    crate::tree::is_forest(r@.tree, roots, nodes@),
            { r.tree().snapshot_forest() };
        let nodes = self.board.look(f);
        proof {
            let v = choose|v: Roster| #[trigger]
                crate::shared::found(self.board.lock(), v) && self.board.lock().inv(v)
                    && f.ensures((&v,), nodes);
            assert(self.system().tree_seen(v@.tree));
        }
        nodes
    }
}

} // verus!
