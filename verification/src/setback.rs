//! A panic of a supervised actor.

use vstd::prelude::*;

use crate::event::SupervisionEvent;
use crate::id::ActorId;
use crate::roster::RosterView;
use crate::seat::{Deeds, Seat};
use crate::stats::ActorStats;
use crate::supervisor::ActorSystem;

verus! {

/// A panic that has been taken down: the busy flag that it left behind is cleared,
/// and the restarts of the actor stand in the tree. There is no such value before
/// all that has been done, and what follows from a panic is announced with one, so
/// whoever hears of it finds the panic counted.
pub struct Setback {
    system: Ghost<ActorSystem>,
    id: ActorId,
    restarts: u32,
    stats: Ghost<ActorStats>,
}

impl Setback {
    #[verifier::type_invariant]
    closed spec fn inv(&self) -> bool {
        &&& self.stats@.finish_recorded()
        &&& self.system@.restarts_noted(self.id, self.restarts)
    }

    /// It is this actor of this system that has now panicked so many times.
    pub closed spec fn is_of(
        self,
        system: ActorSystem,
        id: ActorId,
        restarts: u32,
        stats: ActorStats,
    ) -> bool {
        self.system@ == system && self.id == id && self.restarts == restarts && self.stats@
            == stats
    }

    /// Clear the busy flag, and note in the tree how often the actor has panicked.
    /// Nothing else is done.
    pub(crate) fn of(seat: &Seat, deeds: &mut Deeds, id: ActorId, restarts: u32) -> (s: Setback)
        requires
            id == seat.id(),
        ensures
            s.is_of(seat.system(), id, restarts, seat.counters()),
            seat.counters().finish_recorded(),
            seat.system().restarts_noted(id, restarts),
            final(deeds).told() == old(deeds).told(),
            exists|a: RosterView, b: RosterView| #[trigger]
                final(deeds).one_more_change(*old(deeds), a, b) && a.notes_to(b, id, restarts),
            final(deeds).clearings() == old(deeds).clearings() + 1,
            final(deeds).stops() == old(deeds).stops(),
    {
        seat.clear_busy(deeds);
        let ghost cleared = *deeds;
        ActorSystem::note_restarts(seat, deeds, restarts);
        proof {
            let (a, b) = choose|a: RosterView, b: RosterView| #[trigger]
                deeds.one_more_change(cleared, a, b) && a.notes_to(b, id, restarts);
            assert(deeds.one_more_change(*old(deeds), a, b));
        }
        Setback { system: Ghost(seat.system()), id, restarts, stats: Ghost(seat.counters()) }
    }

    fn tell(self, event: &SupervisionEvent) -> (told: SupervisionEvent)
        ensures
            told@ == event@,
    {
        event.clone()
    }

    /// The event was announced with this value.
    pub closed spec fn was_announced(self, event: SupervisionEvent) -> bool {
        exists|told: SupervisionEvent| #[trigger]
            call_ensures(Setback::tell, (self, &event), told)
    }

    /// Tell every subscriber what follows from the panic.
    pub(crate) fn announce(self, seat: &Seat, deeds: &mut Deeds, event: &SupervisionEvent)
        ensures
            self.was_announced(*event),
            seat.system().announced(event@),
            final(deeds).told() == old(deeds).told().push(event@),
            final(deeds).same_changes(*old(deeds)),
            final(deeds).clearings() == old(deeds).clearings(),
            final(deeds).stops() == old(deeds).stops(),
    {
        let told = self.tell(event);
        assert(call_ensures(Setback::tell, (self, event), told));
        seat.announce(deeds, told);
    }
}

/// What is said to have been announced with a setback took that setback.
proof fn law_setback_evidence(
    s: Setback,
    event: SupervisionEvent,
    system: ActorSystem,
    id: ActorId,
    restarts: u32,
    stats: ActorStats,
)
    ensures
        s.was_announced(event) ==> exists|told: SupervisionEvent| #[trigger]
            call_ensures(Setback::tell, (s, &event), told),
        s.is_of(system, id, restarts, stats) ==> s.system@ == system && s.id == id && s.restarts
            == restarts && s.stats@ == stats,
{
}

} // verus!
