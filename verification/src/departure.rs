//! The end of a supervised actor.

use tokio_util::sync::CancellationToken;
use vstd::prelude::*;

use crate::event::{EventView, SupervisionEvent};
use crate::id::ActorId;
use crate::reach::Spent;
use crate::roster::RosterView;
use crate::seat::{Deeds, Seat};
use crate::stats::ActorStats;
use crate::supervisor::ActorSystem;

verus! {

/// An actor that is gone: it is not busy any more, its token has been cancelled,
/// and it has been taken out of the tree. There is no such value before all that
/// has been done, and the end of an actor is announced with one, so nobody hears
/// of the end of an actor that is still there.
pub struct Departed {
    seat: Seat,
    deeds: Deeds,
}

impl Departed {
    #[verifier::type_invariant]
    closed spec fn inv(&self) -> bool {
        &&& self.seat.counters().finish_recorded()
        &&& crate::outside::cancelled(self.seat.token())
        &&& self.seat.system().taken_out(self.seat.id())
    }

    /// This actor of this system is gone.
    pub closed spec fn is_of(
        self,
        system: ActorSystem,
        id: ActorId,
        token: CancellationToken,
        stats: ActorStats,
    ) -> bool {
        self.seat.system() == system && self.seat.id() == id && self.seat.token() == token
            && self.seat.counters() == stats
    }

    /// What has been done for the actor by now.
    pub closed spec fn deeds(self) -> Deeds {
        self.deeds
    }

    /// Clear the busy flag so that a dead actor is never read as busy, cancel the
    /// token so that the children stop, and take the actor out of the tree. Nothing
    /// else is done.
    pub(crate) fn of(seat: Seat, deeds: Deeds) -> (d: Departed)
        ensures
            d.is_of(seat.system(), seat.id(), seat.token(), seat.counters()),
            seat.counters().finish_recorded(),
            crate::outside::cancelled(seat.token()),
            seat.system().taken_out(seat.id()),
            d.deeds().told() == deeds.told(),
            exists|a: RosterView, b: RosterView| #[trigger]
                d.deeds().one_more_change(deeds, a, b) && a.leaves_to(b, seat.id()),
            d.deeds().clearings() == deeds.clearings() + 1,
            d.deeds().stops() == deeds.stops().push(seat.token()),
    {
        let ghost before = deeds;
        let mut deeds = deeds;
        seat.clear_busy(&mut deeds);
        seat.stop(&mut deeds);
        let ghost stopped = deeds;
        ActorSystem::deregister(&seat, &mut deeds);
        proof {
            let (a, b) = choose|a: RosterView, b: RosterView| #[trigger]
                deeds.one_more_change(stopped, a, b) && a.leaves_to(b, seat.id());
            assert(deeds.one_more_change(before, a, b));
        }
        Departed { seat, deeds }
    }

    fn tell(self) -> (r: (SupervisionEvent, Spent<Deeds>))
        ensures
            r.0@ == (EventView::Stopped { id: self.seat.id() }),
            self.seat.system().announced(r.0@),
            r.1@.told() == self.deeds.told().push(r.0@),
            r.1@.same_changes(self.deeds),
            r.1@.clearings() == self.deeds.clearings(),
            r.1@.stops() == self.deeds.stops(),
    {
        let Departed { seat, deeds } = self;
        let mut deeds = deeds;
        let event = SupervisionEvent::Stopped { id: seat.id_of() };
        seat.announce(&mut deeds, event.clone());
        (event, Spent::new(deeds))
    }

    /// The end of the actor was announced with this value.
    pub closed spec fn was_announced(self, event: SupervisionEvent) -> bool {
        exists|end: Deeds| #[trigger] self.ended_as(event, end)
    }

    /// The end of the actor was announced with this value, and after that nothing
    /// more can be done for it: `end` is all that ever was.
    pub closed spec fn ended_as(self, event: SupervisionEvent, end: Deeds) -> bool {
        exists|rest: Spent<Deeds>| #[trigger]
            call_ensures(Departed::tell, (self,), (event, rest)) && rest@ == end
    }

    /// Tell every subscriber that the actor is gone.
    pub(crate) fn announce(self) -> (event: SupervisionEvent)
        ensures
            self.was_announced(event),
            exists|end: Deeds| #[trigger]
                self.ended_as(event, end) && end.told() == self.deeds().told().push(event@)
                    && end.same_changes(self.deeds()) && end.clearings()
                    == self.deeds().clearings() && end.stops() == self.deeds().stops(),
            forall|system: ActorSystem, id: ActorId, token: CancellationToken, stats: ActorStats|
                #[trigger]
                self.is_of(system, id, token, stats) ==> event@ == (EventView::Stopped { id })
                    && system.announced(event@),
    {
        let ghost departed = self;
        let (event, rest) = self.tell();
        assert(departed.ended_as(event, rest@));
        event
    }
}

/// What is said to have been announced with a departure took that departure, and
/// nothing was left of it to act with.
proof fn law_departure_evidence(
    d: Departed,
    event: SupervisionEvent,
    end: Deeds,
    system: ActorSystem,
    id: ActorId,
    token: CancellationToken,
    stats: ActorStats,
)
    ensures
        d.ended_as(event, end) ==> exists|rest: Spent<Deeds>| #[trigger]
            call_ensures(Departed::tell, (d,), (event, rest)) && rest@ == end,
        d.is_of(system, id, token, stats) ==> d.seat.system() == system && d.seat.id() == id
            && d.seat.token() == token && d.seat.counters() == stats,
{
}

} // verus!
