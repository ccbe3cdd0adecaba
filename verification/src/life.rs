//! The supervising side of one actor.

use tokio_util::sync::CancellationToken;
use vstd::prelude::*;

use crate::departure::Departed;
use crate::event::{EventView, SupervisionEvent};
use crate::id::ActorId;
use crate::lifecycle::{panic_message, PanicPayload, Supervision, Verdict};
use crate::roster::RosterView;
use crate::seat::{Deeds, Seat};
use crate::setback::Setback;
use crate::stats::ActorStats;
use crate::supervisor::ActorSystem;

verus! {

/// The supervising side of one actor: what its loop does between two
/// incarnations, and at the end. It acts through a [`Seat`] alone, and its
/// [`Deeds`] are all that it ever did.
pub struct Life {
    max_restarts: u32,
    restarts: u32,
    seat: Seat,
    deeds: Deeds,
}

impl Life {
    /// Where the restart policy stands.
    pub closed spec fn policy(self) -> Supervision {
        Supervision {
            id: self.seat.id(),
            max_restarts: self.max_restarts,
            restarts: self.restarts,
        }
    }

    /// The token of the actor.
    pub closed spec fn token(self) -> CancellationToken {
        self.seat.token()
    }

    /// The counters of the actor.
    pub closed spec fn counters(self) -> ActorStats {
        self.seat.counters()
    }

    /// The system that the actor belongs to.
    pub closed spec fn system(self) -> ActorSystem {
        self.seat.system()
    }

    /// What has been done for the actor by now.
    pub closed spec fn deeds(self) -> Deeds {
        self.deeds
    }

    /// The life of an actor that has just been announced.
    pub(crate) fn new(supervision: Supervision, seat: Seat, deeds: Deeds) -> (l: Life)
        requires
            supervision.id == seat.id(),
        ensures
            l.policy() == supervision,
            l.token() == seat.token(),
            l.counters() == seat.counters(),
            l.system() == seat.system(),
            l.deeds() == deeds,
    {
        Life {
            max_restarts: supervision.max_restarts,
            restarts: supervision.restarts,
            seat,
            deeds,
        }
    }

    /// `ev` is what a panic with this message gives rise to, with the parent chain
    /// of the actor as it was seen if the actor is given up.
    pub open spec fn announces(self, ev: EventView, error: Seq<char>) -> bool {
        exists|ancestry: Seq<ActorId>|
            ev == #[trigger] self.policy().panic_event(ancestry, error) && (
            self.policy().next_verdict() is GiveUp ==> self.system().ancestry_seen(
                self.policy().id,
                ancestry,
            ) && crate::supervisor::leads_to_older(ancestry, self.policy().id))
    }

    /// A panic with this message was dealt with: the busy flag was cleared, the
    /// panic was counted, and only then what follows was announced, with a
    /// [`Setback`].
    pub open spec fn panic_handled(self, event: SupervisionEvent, error: Seq<char>) -> bool {
        let restarts = crate::lifecycle::one_more(self.policy().restarts);
        &&& self.counters().finish_recorded()
        &&& self.system().restarts_noted(self.policy().id, restarts)
        &&& self.announces(event@, error)
        &&& self.system().announced(event@)
        &&& exists|s: Setback| #[trigger]
            s.was_announced(event) && s.is_of(
                self.system(),
                self.policy().id,
                restarts,
                self.counters(),
            )
    }

    /// The same actor as `before`, after one more panic. For that the busy flag was
    /// cleared, the restarts of this actor were noted in the tree, and one event was
    /// announced; nothing else was changed, and no token was cancelled.
    pub open spec fn has_panicked_since(self, before: Life) -> bool {
        &&& self.policy() == before.policy().after_panic()
        &&& self.token() == before.token()
        &&& self.counters() == before.counters()
        &&& self.system() == before.system()
        &&& self.deeds().stops() == before.deeds().stops()
        &&& self.deeds().clearings() == before.deeds().clearings() + 1
        &&& exists|a: RosterView, b: RosterView| #[trigger]
            self.deeds().one_more_change(before.deeds(), a, b) && a.notes_to(
                b,
                before.policy().id,
                self.policy().restarts,
            )
        &&& exists|ev: EventView|
            self.deeds().told() == #[trigger] before.deeds().told().push(ev)
    }

    /// The actor's life is over, and `end` is all that was ever done for it: after
    /// what had been done when it was this one, its busy flag was cleared, its own
    /// token was cancelled, it was taken out of the tree, and its end was announced.
    pub open spec fn ends_with(self, end: Deeds) -> bool {
        &&& end.told() == self.deeds().told().push(EventView::Stopped { id: self.policy().id })
        &&& end.stops() == self.deeds().stops().push(self.token())
        &&& end.clearings() == self.deeds().clearings() + 1
        &&& exists|a: RosterView, b: RosterView| #[trigger]
            end.one_more_change(self.deeds(), a, b) && a.leaves_to(b, self.policy().id)
    }

    /// An incarnation panicked. Clears the busy flag that it left behind, counts
    /// the panic, only then announces what follows, and returns that verdict together
    /// with the event that was announced.
    pub fn panicked(&mut self, payload: PanicPayload) -> (r: (Verdict, SupervisionEvent))
        ensures
            final(self).has_panicked_since(*old(self)),
            r.0 == old(self).policy().next_verdict(),
            old(self).panic_handled(r.1, crate::lifecycle::panic_text(payload)),
            final(self).deeds().told() == old(self).deeds().told().push(r.1@),
    {
        let id = self.seat.id_of();
        let mut supervision = Supervision {
            id,
            max_restarts: self.max_restarts,
            restarts: self.restarts,
        };
        let restarts = self.restarts.wrapping_add(1);
        let setback = Setback::of(&self.seat, &mut self.deeds, id, restarts);
        let ghost taken_down = setback;
        let ghost noted = self.deeds;
        let error = panic_message(payload);
        let ancestry = if supervision.is_exhausted() {
            self.seat.ancestry()
        } else {
            Vec::new()
        };
        let ghost chain = ancestry@;
        let (verdict, event) = supervision.panicked(ancestry, error);
        self.restarts = supervision.restarts;
        setback.announce(&self.seat, &mut self.deeds, &event);
        proof {
            assert(event@ == old(self).policy().panic_event(
                chain,
                crate::lifecycle::panic_text(payload),
            ));
            assert(taken_down.was_announced(event));
            let (a, b) = choose|a: RosterView, b: RosterView| #[trigger]
                noted.one_more_change(old(self).deeds(), a, b) && a.notes_to(b, id, restarts);
            assert(self.deeds().one_more_change(old(self).deeds(), a, b)) by {
                assert forall|i: int| 0 <= i < old(self).deeds().changes() implies
                    #[trigger] self.deeds().change(i) == old(self).deeds().change(i) by {
                    assert(noted.change(i) == old(self).deeds().change(i));
                }
            }
            assert(self.deeds().told() == old(self).deeds().told().push(event@));
        }
        (verdict, event)
    }

    /// An incarnation is over: it returned, or it panicked. Says whether the actor
    /// runs again. One that returned never does, and nothing is done about it; for one
    /// that panicked see [`Life::panicked`].
    pub fn after_run(&mut self, panic: Option<PanicPayload>) -> (again: bool)
        ensures
            panic is None ==> !again && *final(self) == *old(self),
            panic matches Some(payload) ==> {
                &&& again == (old(self).policy().next_verdict() is Restart)
                &&& final(self).has_panicked_since(*old(self))
                &&& exists|event: SupervisionEvent| #[trigger]
                    old(self).panic_handled(event, crate::lifecycle::panic_text(payload))
                        && final(self).deeds().told() == old(self).deeds().told().push(event@)
            },
    {
        match panic {
            None => false,
            Some(payload) => {
                let (verdict, event) = self.panicked(payload);
                assert(old(self).panic_handled(
                    event,
                    crate::lifecycle::panic_text(payload),
                ));
                match verdict {
                    Verdict::Restart => true,
                    Verdict::GiveUp => false,
                }
            },
        }
    }

    /// The actor is done, cleanly or not. Clears the busy flag so that a dead
    /// actor is never read as busy, cancels the token so that its children stop,
    /// takes it out of the tree, and only then announces its end, with a
    /// [`Departed`]; returns the event that was announced.
    pub fn retire(self) -> (event: SupervisionEvent)
        ensures
            event@ == (EventView::Stopped { id: self.policy().id }),
            self.counters().finish_recorded(),
            crate::outside::cancelled(self.token()),
            self.system().taken_out(self.policy().id),
            self.system().announced(event@),
            exists|d: Departed| #[trigger]
                d.was_announced(event) && d.is_of(
                    self.system(),
                    self.policy().id,
                    self.token(),
                    self.counters(),
                ),
            exists|d: Departed, end: Deeds| #[trigger]
                d.ended_as(event, end) && self.ends_with(end),
    {
        let ghost life = self;
        let Life { seat, deeds, .. } = self;
        let departed = Departed::of(seat, deeds);
        let ghost d = departed;
        let event = departed.announce();
        proof {
            assert(d.was_announced(event));
            let end = choose|end: Deeds| #[trigger]
                d.ended_as(event, end) && end.told() == d.deeds().told().push(event@)
                    && end.same_changes(d.deeds()) && end.clearings() == d.deeds().clearings()
                    && end.stops() == d.deeds().stops();
            let (a, b) = choose|a: RosterView, b: RosterView| #[trigger]
                d.deeds().one_more_change(life.deeds(), a, b) && a.leaves_to(b, life.policy().id);
            assert(end.one_more_change(life.deeds(), a, b));
            assert(life.ends_with(end));
        }
        event
    }
}

// ---------------------------------------------------------------------------
// Laws
// ---------------------------------------------------------------------------

/// `lives` are the states of one life, from its beginning on, with one panic from
/// each to the next. The actor was restarted each time but perhaps the last.
pub open spec fn is_course(lives: Seq<Life>, errors: Seq<Seq<char>>) -> bool {
    &&& lives.len() == errors.len() + 1
    &&& lives[0].policy().restarts == 0
    &&& lives[0].deeds().told().len() == 1
    &&& lives[0].deeds().stops().len() == 0
    &&& forall|i: int|
        0 <= i < errors.len() ==> (#[trigger] lives[i + 1]).has_panicked_since(lives[i])
    &&& forall|i: int|
        0 <= i < errors.len() ==> exists|ev: EventView|
            lives[i].announces(ev, #[trigger] errors[i]) && lives[i + 1].deeds().told()
                == #[trigger] lives[i].deeds().told().push(ev)
}

/// A whole life, event by event: after the one event that announced it, an actor's
/// first `max_restarts` panics are each announced as a restart with its number, the
/// next one, if it comes, as a failure with the words of the panic, and the end as
/// such. There is nothing else in between, before or after, so an actor that never
/// panicked is announced and ends, and one is reported as failed only past the limit.
///
/// One for one: all that time no token is cancelled, and at the end the actor's own
/// is the only one, so its siblings, its parent and the system go on.
pub proof fn law_whole_life(lives: Seq<Life>, errors: Seq<Seq<char>>, end: Deeds)
    requires
        is_course(lives, errors),
        lives[0].policy().max_restarts < u32::MAX,
        errors.len() <= lives[0].policy().max_restarts + 1,
        lives.last().ends_with(end),
    ensures
        ({
            let id = lives[0].policy().id;
            let max = lives[0].policy().max_restarts;
            &&& end.told().len() == errors.len() + 2
            &&& end.told()[0] == lives[0].deeds().told()[0]
            &&& forall|i: int|
                0 < i <= errors.len() && i <= max ==> #[trigger] end.told()[i]
                    == (EventView::Restarted { id, restarts: i as u32 })
            &&& errors.len() == max + 1 ==> (end.told()[max + 1] matches EventView::Failed {
                id: failed,
                error,
                ..
            } && failed == id && error == errors.last())
            &&& end.told().last() == (EventView::Stopped { id })
            &&& end.stops() == seq![lives[0].token()]
        }),
{
    lemma_course(lives, errors, errors.len() as int);
}

proof fn lemma_course(lives: Seq<Life>, errors: Seq<Seq<char>>, n: int)
    requires
        is_course(lives, errors),
        lives[0].policy().max_restarts < u32::MAX,
        0 <= n <= errors.len() <= lives[0].policy().max_restarts + 1,
    ensures
        ({
            let first = lives[0].policy();
            let told = lives[n].deeds().told();
            &&& lives[n].policy() == (Supervision { restarts: n as u32, ..first })
            &&& lives[n].token() == lives[0].token()
            &&& lives[n].deeds().stops() == Seq::<CancellationToken>::empty()
            &&& told.len() == n + 1
            &&& told[0] == lives[0].deeds().told()[0]
            &&& forall|i: int|
                0 < i <= n && i <= first.max_restarts ==> #[trigger] told[i]
                    == (EventView::Restarted { id: first.id, restarts: i as u32 })
            &&& n == first.max_restarts + 1 ==> (told[n] matches EventView::Failed {
                id: failed,
                error,
                ..
            } && failed == first.id && error == errors[n - 1])
        }),
    decreases n,
{
    if n > 0 {
        lemma_course(lives, errors, n - 1);
        let i = n - 1;
        assert(lives[i + 1].has_panicked_since(lives[i]));
        let error = errors[i];
        let ev = choose|ev: EventView|
            lives[i].announces(ev, error) && lives[i + 1].deeds().told()
                == #[trigger] lives[i].deeds().told().push(ev);
        assert(lives[i].announces(ev, error));
    }
}

/// A clean end is no failure: an actor whose task returned without a panic is
/// announced, and ends. Nothing else is ever said of it, and the only token that is
/// cancelled is its own.
pub proof fn law_a_clean_life_has_two_events(life: Life, end: Deeds)
    requires
        life.deeds().told().len() == 1,
        life.deeds().stops().len() == 0,
        life.ends_with(end),
    ensures
        end.told() == seq![
            life.deeds().told()[0],
            EventView::Stopped { id: life.policy().id },
        ],
        end.stops() == seq![life.token()],
{
    assert(end.told() =~= seq![
        life.deeds().told()[0],
        EventView::Stopped { id: life.policy().id },
    ]);
    assert(end.stops() =~= seq![life.token()]);
}

/// Dealing with a panic stops nobody and touches nobody else in the tree: no token
/// is cancelled, and every other actor stays as it was, whether the actor that
/// panicked is restarted or given up.
pub proof fn law_panics_leave_the_others_alone(before: Life, after: Life, other: ActorId)
    requires
        after.has_panicked_since(before),
        other != before.policy().id,
    ensures
        after.deeds().stops() == before.deeds().stops(),
        after.deeds().changes() == before.deeds().changes() + 1,
        ({
            let (a, b) = after.deeds().change(before.deeds().changes() as int);
            &&& a.tree.contains_key(other) <==> b.tree.contains_key(other)
            &&& a.tree.contains_key(other) ==> b.tree[other] == a.tree[other]
            &&& a.tree.contains_key(before.policy().id)
                ==> b.tree.contains_key(before.policy().id)
                && b.tree[before.policy().id].token == a.tree[before.policy().id].token
        }),
{
    let (a, b) = choose|a: RosterView, b: RosterView| #[trigger]
        after.deeds().one_more_change(before.deeds(), a, b) && a.notes_to(
            b,
            before.policy().id,
            after.policy().restarts,
        );
    crate::tree_laws::law_restart_is_one_for_one(
        a.tree,
        before.policy().id,
        after.policy().restarts,
    );
}

} // verus!
