//! What the supervising side of one actor can do, and what it has done.

use std::sync::Arc;
use tokio::sync::broadcast;
use tokio_util::sync::CancellationToken;
use vstd::prelude::*;
use vstd::rwlock::RwLock;

use crate::event::{EventView, SupervisionEvent};
use crate::id::ActorId;
use crate::reach::{Hand, Log, StopSwitch, Voice};
use crate::roster::{Roster, RosterView};
use crate::stats::{Activity, ActivityInv, ActorStats};
use crate::supervisor::{ActorSystem, Birth, RosterInv};

verus! {

/// All that was done to the world for one actor.
pub struct Deeds {
    told: Log<SupervisionEvent>,
    changes: Log<(Roster, Roster)>,
    clearings: Log<(Activity, Activity)>,
    stops: Log<CancellationToken>,
}

impl Deeds {
    /// The events that were announced, in order.
    pub closed spec fn told(self) -> Seq<EventView> {
        self.told.entries().map_values(|e: SupervisionEvent| e@)
    }

    /// How often the tree was changed.
    pub closed spec fn changes(self) -> nat {
        self.changes.entries().len()
    }

    /// The change number `i` of the tree, from what it was to what it became.
    pub closed spec fn change(self, i: int) -> (RosterView, RosterView) {
        (self.changes.entries()[i].0@, self.changes.entries()[i].1@)
    }

    /// How often the counters were changed.
    pub closed spec fn clearings(self) -> nat {
        self.clearings.entries().len()
    }

    /// The tokens that were cancelled, in order.
    pub closed spec fn stops(self) -> Seq<CancellationToken> {
        self.stops.entries()
    }

    /// Both tell of the same changes of the tree.
    pub open spec fn same_changes(self, other: Deeds) -> bool {
        &&& self.changes() == other.changes()
        &&& forall|i: int| #[trigger] self.change(i) == other.change(i)
    }

    /// After `before` the tree was changed once more, from `a` to `b`.
    pub open spec fn one_more_change(self, before: Deeds, a: RosterView, b: RosterView) -> bool {
        &&& self.changes() == before.changes() + 1
        &&& self.change(before.changes() as int) == (a, b)
        &&& forall|i: int|
            0 <= i < before.changes() ==> #[trigger] self.change(i) == before.change(i)
    }

    /// Nothing done yet.
    pub(crate) fn new(birth: &Birth) -> (d: Deeds)
        ensures
            d.told() == Seq::<EventView>::empty(),
            d.changes() == 0,
            d.clearings() == 0,
            d.stops() == Seq::<CancellationToken>::empty(),
    {
        let d = Deeds {
            told: Log::new(birth),
            changes: Log::new(birth),
            clearings: Log::new(birth),
            stops: Log::new(birth),
        };
        assert(d.told() =~= Seq::<EventView>::empty());
        d
    }
}

/// What the supervising side of one actor can do: clear its busy flag, note its
/// restarts in the tree, look up its parent chain, take it out of the tree, cancel
/// its token, and announce events. It reaches nobody else's token.
pub struct Seat {
    id: ActorId,
    voice: Voice<SupervisionEvent>,
    board: Hand<Roster, RosterInv>,
    gauge: Hand<Activity, ActivityInv>,
    switch: StopSwitch,
    system: Ghost<ActorSystem>,
    stats: Ghost<ActorStats>,
}

impl Seat {
    #[verifier::type_invariant]
    closed spec fn inv(&self) -> bool {
        &&& self.voice.sender() == self.system@.event_sender()
        &&& self.board.lock() == self.system@.roster_lock()
        &&& self.board.lock().pred() == (RosterInv { source: self.system@.root_source() })
        &&& self.gauge.lock() == self.stats@.activity_lock()
    }

    /// The actor.
    pub closed spec fn id(self) -> ActorId {
        self.id
    }

    /// The token of the actor.
    pub closed spec fn token(self) -> CancellationToken {
        self.switch.token()
    }

    /// The counters of the actor.
    pub closed spec fn counters(self) -> ActorStats {
        self.stats@
    }

    /// The system of the actor.
    pub closed spec fn system(self) -> ActorSystem {
        self.system@
    }

    /// A seat of `system` for the actor `id`.
    pub(crate) fn new(
        id: ActorId,
        events: Arc<broadcast::Sender<SupervisionEvent>>,
        roster: Arc<RwLock<Roster, RosterInv>>,
        stats: &ActorStats,
        token: CancellationToken,
        Ghost(system): Ghost<ActorSystem>,
    ) -> (s: Seat)
        requires
            *events == system.event_sender(),
            *roster == system.roster_lock(),
            roster.pred() == (RosterInv { source: system.root_source() }),
        ensures
            s.id() == id,
            s.token() == token,
            s.counters() == *stats,
            s.system() == system,
    {
        Seat {
            id,
            voice: Voice::new(events),
            board: Hand::new(roster),
            gauge: stats.hand(),
            switch: StopSwitch::new(token),
            system: Ghost(system),
            stats: Ghost(*stats),
        }
    }

    /// The actor's id.
    pub(crate) fn id_of(&self) -> (id: ActorId)
        ensures
            id == self.id(),
    {
        self.id
    }

    /// Tell every subscriber.
    pub(crate) fn announce(&self, deeds: &mut Deeds, ev: SupervisionEvent)
        ensures
            self.system().announced(ev@),
            final(deeds).told() == old(deeds).told().push(ev@),
            final(deeds).same_changes(*old(deeds)),
            final(deeds).clearings() == old(deeds).clearings(),
            final(deeds).stops() == old(deeds).stops(),
    {
        proof {
            use_type_invariant(self);
        }
        let ghost said = ev;
        self.voice.announce(&mut deeds.told, ev);
        proof {
            assert(crate::outside::published(self.system().event_sender(), said));
            assert(deeds.told() =~= old(deeds).told().push(said@));
        }
    }

    /// Clear the busy flag: [`Activity::record_finish`].
    pub(crate) fn clear_busy(&self, deeds: &mut Deeds)
        ensures
            self.counters().finish_recorded(),
            final(deeds).told() == old(deeds).told(),
            final(deeds).same_changes(*old(deeds)),
            final(deeds).clearings() == old(deeds).clearings() + 1,
            final(deeds).stops() == old(deeds).stops(),
    {
        proof {
            use_type_invariant(self);
        }
        let f = |a: Activity| -> (b: Activity)
            ensures
                b == a.finished(),
                a.wf() ==> b.wf(),
            {
                let mut b = a;
                b.record_finish();
                b
            };
        assert forall|v: Activity, w: Activity|
            self.gauge.lock().inv(v) && #[trigger] f.ensures((v,), w) implies self.gauge.lock().inv(
            w,
        ) by {
            assert(w == v.finished());
        }
        self.gauge.change(&mut deeds.clearings, f);
        proof {
            let (a, b) = choose|a: Activity, b: Activity| #[trigger]
                crate::shared::replaced(self.gauge.lock(), a, b) && f.ensures((a,), b);
            assert(self.counters().went(a, a.finished()));
        }
    }

    /// Note in the tree how often the actor has been restarted:
    /// [`Roster::note_restarts`].
    pub(crate) fn note(&self, deeds: &mut Deeds, n: u32)
        ensures
            self.system().restarts_noted(self.id(), n),
            final(deeds).told() == old(deeds).told(),
            exists|a: RosterView, b: RosterView| #[trigger]
                final(deeds).one_more_change(*old(deeds), a, b) && a.notes_to(b, self.id(), n),
            final(deeds).clearings() == old(deeds).clearings(),
            final(deeds).stops() == old(deeds).stops(),
    {
        proof {
            use_type_invariant(self);
        }
        let id = self.id;
        let f = |r: Roster| -> (w: Roster)
            ensures
                r@.notes_to(w@, id, n),
                r@.sound() ==> w@.sound(),
            {
                let mut w = r;
                w.note_restarts(id, n);
                w
            };
        assert forall|v: Roster, w: Roster|
            self.board.lock().inv(v) && #[trigger] f.ensures((v,), w) implies self.board.lock().inv(
            w,
        ) by {
            crate::tree_laws::law_restart_is_one_for_one(v@.tree, id, n);
            assert forall|a: ActorId| #[trigger] w@.tree.contains_key(a) implies
                crate::cascade::stops_with(w@.tree[a].token, self.system().root_source()) by {
                assert(w@.tree.dom().contains(a));
                assert(v@.tree.contains_key(a));
            }
        }
        self.board.change(&mut deeds.changes, f);
        proof {
            let (v, w) = choose|v: Roster, w: Roster| #[trigger]
                crate::shared::replaced(self.board.lock(), v, w) && self.board.lock().inv(v)
                    && f.ensures((v,), w) && deeds.changes.entries() == old(
                    deeds,
                ).changes.entries().push((v, w));
            assert(v@.notes_to(w@, id, n));
            assert(v@.changes_to(w@));
            assert(self.system().tree_went(
                v@.tree,
                crate::tree::restarted(v@.tree, id, n),
            ));
            assert(deeds.one_more_change(*old(deeds), v@, w@));
        }
    }

    /// Take the actor out of the tree: [`Roster::leave`].
    pub(crate) fn leave(&self, deeds: &mut Deeds)
        ensures
            self.system().taken_out(self.id()),
            final(deeds).told() == old(deeds).told(),
            exists|a: RosterView, b: RosterView| #[trigger]
                final(deeds).one_more_change(*old(deeds), a, b) && a.leaves_to(b, self.id()),
            final(deeds).clearings() == old(deeds).clearings(),
            final(deeds).stops() == old(deeds).stops(),
    {
        proof {
            use_type_invariant(self);
        }
        let id = self.id;
        let f = |r: Roster| -> (w: Roster)
            ensures
                r@.leaves_to(w@, id),
                r@.sound() ==> w@.sound(),
            {
                let mut w = r;
                w.leave(id);
                w
            };
        assert forall|v: Roster, w: Roster|
            self.board.lock().inv(v) && #[trigger] f.ensures((v,), w) implies self.board.lock().inv(
            w,
        ) by {
            assert(v@.leaves_to(w@, id));
            assert forall|a: ActorId| #[trigger] w@.tree.contains_key(a) implies
                crate::cascade::stops_with(w@.tree[a].token, self.system().root_source()) by {
                assert(v@.tree.contains_key(a));
            }
        }
        self.board.change(&mut deeds.changes, f);
        proof {
            let (v, w) = choose|v: Roster, w: Roster| #[trigger]
                crate::shared::replaced(self.board.lock(), v, w) && self.board.lock().inv(v)
                    && f.ensures((v,), w) && deeds.changes.entries() == old(
                    deeds,
                ).changes.entries().push((v, w));
            assert(v@.leaves_to(w@, id));
            assert(v@.changes_to(w@));
            crate::tree_laws::law_no_zombie(v@.tree, id);
            assert(self.system().tree_went(
                v@.tree,
                crate::tree::deregistered(v@.tree, id),
            ));
            assert(deeds.one_more_change(*old(deeds), v@, w@));
        }
    }

    /// Cancel the actor's token.
    pub(crate) fn stop(&self, deeds: &mut Deeds)
        ensures
            crate::outside::cancelled(self.token()),
            final(deeds).told() == old(deeds).told(),
            final(deeds).same_changes(*old(deeds)),
            final(deeds).clearings() == old(deeds).clearings(),
            final(deeds).stops() == old(deeds).stops().push(self.token()),
    {
        self.switch.pull(&mut deeds.stops);
    }

    /// Parent chain of the actor up to the root, nearest first.
    pub(crate) fn ancestry(&self) -> (chain: Vec<ActorId>)
        ensures
            self.system().ancestry_seen(self.id(), chain@),
            crate::supervisor::leads_to_older(chain@, self.id()),
    {
        proof {
            use_type_invariant(self);
        }
        let id = self.id;
        let f = |r: &Roster| -> (chain: Vec<ActorId>)
            requires
                r@.sound(),
            ensures
                chain@ == crate::tree::ancestry_of(r@.tree, id),
            { r.tree().ancestry(id) };
        let chain = self.board.look(f);
        proof {
            let v = choose|v: Roster| #[trigger]
                crate::shared::found(self.board.lock(), v) && self.board.lock().inv(v)
                    && f.ensures((&v,), chain);
            assert(self.system().tree_seen(v@.tree));
            crate::tree_laws::law_ancestry_leads_to_older(v@.tree, id);
        }
        chain
    }
}

/// Deeds leave nothing out: every event that was announced, every change of the tree
/// and of the counters, and every token that was cancelled has its entry, in order.
proof fn law_deeds_leave_nothing_out(d: Deeds, i: int)
    ensures
        d.told().len() == d.told.entries().len(),
        0 <= i < d.told().len() ==> d.told()[i] == d.told.entries()[i]@,
        d.changes() == d.changes.entries().len(),
        0 <= i < d.changes() ==> d.change(i).0 == d.changes.entries()[i].0@ && d.change(i).1
            == d.changes.entries()[i].1@,
        d.clearings() == d.clearings.entries().len(),
        d.stops() == d.stops.entries(),
{
}

} // verus!
