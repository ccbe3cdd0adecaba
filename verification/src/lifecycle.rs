//! Restart policy: what follows when a supervised actor panics.

use std::sync::Arc;
use vstd::prelude::*;

use crate::event::{EventView, SupervisionEvent};
use crate::id::ActorId;
use crate::incarnation::{LoopAction, LoopEvent};
use crate::outside::shared_text;

verus! {

/// Tuning for a supervised actor.
#[derive(Debug)]
pub struct SpawnOptions {
    /// The name under which the actor is registered.
    pub name: String,
    /// How often the actor is restarted before it is given up.
    pub max_restarts: u32,
    /// How many messages its mailbox holds.
    pub buffer: usize,
}

impl Default for SpawnOptions {
    fn default() -> (opts: SpawnOptions)
        ensures
            opts.name@ == Seq::<char>::empty(),
            opts.max_restarts == 3,
            opts.buffer == 16,
    {
        SpawnOptions { name: String::new(), max_restarts: 3, buffer: 16 }
    }
}

impl Clone for SpawnOptions {
    fn clone(&self) -> (opts: SpawnOptions)
        ensures
            opts == *self,
    {
        SpawnOptions {
            name: self.name.clone(),
            max_restarts: self.max_restarts,
            buffer: self.buffer,
        }
    }
}

impl SpawnOptions {
    /// The defaults, under a name.
    pub fn named(name: String) -> (opts: SpawnOptions)
        ensures
            opts.name == name,
            opts.max_restarts == 3,
            opts.buffer == 16,
    {
        SpawnOptions { name, ..SpawnOptions::default() }
    }
}

/// What a panicking actor left behind.
pub enum PanicPayload {
    /// A literal message.
    Literal(&'static str),
    /// A formatted message.
    Text(String),
    /// Anything else.
    Other,
}

/// The words in which a panic is reported.
pub open spec fn panic_text(payload: PanicPayload) -> Seq<char> {
    match payload {
        PanicPayload::Literal(s) => s@,
        PanicPayload::Text(s) => s@,
        PanicPayload::Other => "panic"@,
    }
}

/// The message of a panic; `panic` if it carries none.
pub fn panic_message(payload: PanicPayload) -> (msg: Arc<str>)
    ensures
        msg@ == panic_text(payload),
{
    match payload {
        PanicPayload::Literal(s) => shared_text(s),
        PanicPayload::Text(s) => shared_text(s.as_str()),
        PanicPayload::Other => shared_text("panic"),
    }
}

/// What becomes of an actor that panicked.
#[derive(Debug, Clone, Copy, PartialEq, Eq, Structural)]
pub enum Verdict {
    /// It runs again, with fresh state and the same mailbox.
    Restart,
    /// It has used up its restarts and dies.
    GiveUp,
}

/// How often one actor has panicked, and how often it may.
pub struct Supervision {
    pub id: ActorId,
    pub max_restarts: u32,
    pub restarts: u32,
}

/// The count after one more panic; it starts over at zero after the last number.
pub open spec fn one_more(n: u32) -> u32 {
    if n == u32::MAX {
        0
    } else {
        (n + 1) as u32
    }
}

impl Supervision {
    /// The verdict on the next panic.
    pub open spec fn next_verdict(self) -> Verdict {
        if one_more(self.restarts) > self.max_restarts {
            Verdict::GiveUp
        } else {
            Verdict::Restart
        }
    }

    /// The state after the next panic.
    pub open spec fn after_panic(self) -> Supervision {
        Supervision { restarts: one_more(self.restarts), ..self }
    }

    /// The event that the next panic gives rise to.
    pub open spec fn panic_event(self, ancestry: Seq<ActorId>, error: Seq<char>) -> EventView {
        match self.next_verdict() {
            Verdict::GiveUp => EventView::Failed { id: self.id, ancestry, error },
            Verdict::Restart => EventView::Restarted {
                id: self.id,
                restarts: one_more(self.restarts),
            },
        }
    }

    /// An actor that has not panicked yet.
    pub fn new(id: ActorId, max_restarts: u32) -> (s: Supervision)
        ensures
            s == (Supervision { id, max_restarts, restarts: 0 }),
    {
        Supervision { id, max_restarts, restarts: 0 }
    }

    /// Whether the actor will be given up when it panics next.
    pub fn is_exhausted(&self) -> (b: bool)
        ensures
            b == (self.next_verdict() == Verdict::GiveUp),
    {
        self.restarts.wrapping_add(1) > self.max_restarts
    }

    /// Count a panic and decide what follows. `ancestry` is the parent chain of
    /// the actor; it is reported if the actor is given up.
    pub fn panicked(&mut self, ancestry: Vec<ActorId>, error: Arc<str>) -> (r: (
        Verdict,
        SupervisionEvent,
    ))
        ensures
            *final(self) == old(self).after_panic(),
            r.0 == old(self).next_verdict(),
            r.1@ == old(self).panic_event(ancestry@, error@),
    {
        self.restarts = self.restarts.wrapping_add(1);
        if self.restarts > self.max_restarts {
            (Verdict::GiveUp, SupervisionEvent::Failed { id: self.id, ancestry, error })
        } else {
            (
                Verdict::Restart,
                SupervisionEvent::Restarted { id: self.id, restarts: self.restarts },
            )
        }
    }
}

// ---------------------------------------------------------------------------
// Laws
// ---------------------------------------------------------------------------

/// The state after `n` panics of an actor that began at `s` and was restarted
/// each time.
pub open spec fn after_panics(s: Supervision, n: nat) -> Supervision
    decreases n,
{
    if n == 0 {
        s
    } else {
        after_panics(s, (n - 1) as nat).after_panic()
    }
}

/// A fresh actor is restarted on its first `max_restarts` panics, and each
/// restart carries its number.
pub proof fn law_restarts_up_to_the_limit(
    id: ActorId,
    max: u32,
    n: nat,
    ancestry: Seq<ActorId>,
    error: Seq<char>,
)
    requires
        n < max,
    ensures
        ({
            let s = after_panics(Supervision { id, max_restarts: max, restarts: 0 }, n);
            &&& s.restarts == n
            &&& s.next_verdict() == Verdict::Restart
            &&& s.panic_event(ancestry, error) == (EventView::Restarted {
                id,
                restarts: (n + 1) as u32,
            })
        }),
    decreases n,
{
    if n > 0 {
        law_restarts_up_to_the_limit(id, max, (n - 1) as nat, ancestry, error);
    }
    lemma_after_panics(id, max, n);
}

proof fn lemma_after_panics(id: ActorId, max: u32, n: nat)
    requires
        n <= max,
    ensures
        after_panics(Supervision { id, max_restarts: max, restarts: 0 }, n) == (Supervision {
            id,
            max_restarts: max,
            restarts: n as u32,
        }),
    decreases n,
{
    if n > 0 {
        lemma_after_panics(id, max, (n - 1) as nat);
    }
}

/// After `max_restarts` restarts the next panic is the last: the actor is
/// reported as failed and never restarted again. The one limit that can never be
/// exceeded is the largest number there is.
pub proof fn law_gives_up_past_the_limit(
    id: ActorId,
    max: u32,
    ancestry: Seq<ActorId>,
    error: Seq<char>,
)
    requires
        max < u32::MAX,
    ensures
        ({
            let s = after_panics(Supervision { id, max_restarts: max, restarts: 0 }, max as nat);
            &&& s.next_verdict() == Verdict::GiveUp
            &&& s.panic_event(ancestry, error) == (EventView::Failed { id, ancestry, error })
        }),
{
    lemma_after_panics(id, max, max as nat);
}

/// What came of serving a mailbox.
pub struct Service<M> {
    /// The messages handed to the actor, in order.
    pub delivered: Seq<M>,
    /// The messages still in the mailbox.
    pub left: Seq<M>,
    /// Where the restart policy stands.
    pub state: Supervision,
    /// Whether the actor has been given up.
    pub gave_up: bool,
}

/// An actor serves the messages of its mailbox, one after the other. The handler
/// of the message number `i` panics if `panics[i]` says so; the actor is then
/// restarted, or given up, as the policy has it.
pub open spec fn serve<M>(s: Supervision, mail: Seq<M>, panics: Seq<bool>) -> Service<M>
    decreases mail.len(),
{
    if mail.len() == 0 {
        Service { delivered: seq![], left: seq![], state: s, gave_up: false }
    } else {
        match crate::incarnation::answer(LoopEvent::Message(mail[0])) {
            LoopAction::Handle(m) => {
                if panics[0] && s.next_verdict() == Verdict::GiveUp {
                    Service {
                        delivered: seq![m],
                        left: mail.drop_first(),
                        state: s.after_panic(),
                        gave_up: true,
                    }
                } else {
                    let next = if panics[0] {
                        s.after_panic()
                    } else {
                        s
                    };
                    let rest = serve(next, mail.drop_first(), panics.drop_first());
                    Service { delivered: seq![m] + rest.delivered, ..rest }
                }
            },
            _ => Service { delivered: seq![], left: mail, state: s, gave_up: false },
        }
    }
}

/// The number of panics among the first `n` messages.
pub open spec fn panics_among(panics: Seq<bool>, n: nat) -> nat
    decreases n,
{
    if n == 0 {
        0
    } else if panics[n - 1] {
        panics_among(panics, (n - 1) as nat) + 1
    } else {
        panics_among(panics, (n - 1) as nat)
    }
}

proof fn lemma_panics_shift(panics: Seq<bool>, n: nat)
    requires
        n < panics.len(),
    ensures
        panics_among(panics, n + 1) == panics_among(panics.drop_first(), n) + (if panics[0] {
            1nat
        } else {
            0nat
        }),
    decreases n,
{
    if n > 0 {
        lemma_panics_shift(panics, (n - 1) as nat);
        assert(panics.drop_first()[n - 1] == panics[n as int]);
    } else {
        reveal_with_fuel(panics_among, 2);
    }
}

/// The mailbox survives restarts: every message is handed to the actor once and
/// in order, or is still in the mailbox. Only the message in hand is lost to a
/// panic. Unless the actor is given up nothing is left behind, and it is given up
/// exactly when it has panicked once more than it may be restarted. Only with the
/// largest limit there is, and more messages than that, the count could start over.
pub proof fn law_mailbox_survives_restarts<M>(s: Supervision, mail: Seq<M>, panics: Seq<bool>)
    requires
        panics.len() == mail.len(),
        s.restarts <= s.max_restarts,
        s.max_restarts < u32::MAX || s.restarts + mail.len() <= s.max_restarts,
    ensures
        ({
            let r = serve(s, mail, panics);
            let count = panics_among(panics, r.delivered.len());
            &&& r.delivered + r.left == mail
            &&& r.gave_up || r.left.len() == 0
            &&& r.state == (Supervision { restarts: (s.restarts + count) as u32, ..s })
            &&& s.restarts + count <= s.max_restarts + 1
            &&& r.gave_up <==> s.restarts + count > s.max_restarts
        }),
    decreases mail.len(),
{
    let r = serve(s, mail, panics);
    if mail.len() == 0 {
        assert(r.delivered + r.left =~= mail);
    } else if panics[0] && s.next_verdict() == Verdict::GiveUp {
        assert(r.delivered + r.left =~= mail);
        reveal_with_fuel(panics_among, 2);
    } else {
        let next = if panics[0] {
            s.after_panic()
        } else {
            s
        };
        let rest = serve(next, mail.drop_first(), panics.drop_first());
        law_mailbox_survives_restarts(next, mail.drop_first(), panics.drop_first());
        assert(r.delivered =~= seq![mail[0]] + rest.delivered);
        assert(r.delivered + r.left =~= seq![mail[0]] + (rest.delivered + rest.left));
        assert(seq![mail[0]] + mail.drop_first() =~= mail);
        lemma_panics_shift(panics, rest.delivered.len());
    }
}

/// The events of an actor that panics with these parent chains and messages, one
/// after the other, until it is given up.
pub open spec fn panic_events(
    s: Supervision,
    panics: Seq<(Seq<ActorId>, Seq<char>)>,
) -> Seq<EventView>
    decreases panics.len(),
{
    if panics.len() == 0 {
        seq![]
    } else {
        let ev = s.panic_event(panics[0].0, panics[0].1);
        match s.next_verdict() {
            Verdict::GiveUp => seq![ev],
            Verdict::Restart => seq![ev] + panic_events(s.after_panic(), panics.drop_first()),
        }
    }
}

/// The events of one actor from its birth to its death.
pub open spec fn life_events(
    s: Supervision,
    name: Seq<char>,
    parent: Option<ActorId>,
    panics: Seq<(Seq<ActorId>, Seq<char>)>,
) -> Seq<EventView> {
    seq![EventView::Spawned { id: s.id, name, parent }] + panic_events(s, panics)
        + seq![EventView::Stopped { id: s.id }]
}

proof fn lemma_panic_events(s: Supervision, panics: Seq<(Seq<ActorId>, Seq<char>)>)
    requires
        s.restarts <= s.max_restarts,
        s.max_restarts < u32::MAX || s.restarts + panics.len() <= s.max_restarts,
    ensures
        ({
            let evs = panic_events(s, panics);
            let allowed = s.max_restarts - s.restarts;
            &&& evs.len() == if panics.len() <= allowed {
                panics.len() as int
            } else {
                allowed + 1
            }
            &&& forall|i: int|
                0 <= i < evs.len() && i < allowed ==> #[trigger] evs[i]
                    == (EventView::Restarted { id: s.id, restarts: (s.restarts + i + 1) as u32 })
            &&& panics.len() > allowed ==> evs[allowed] == (EventView::Failed {
                id: s.id,
                ancestry: panics[allowed].0,
                error: panics[allowed].1,
            })
        }),
    decreases panics.len(),
{
    if panics.len() > 0 && s.next_verdict() == Verdict::Restart {
        let next = s.after_panic();
        let rest = panics.drop_first();
        lemma_panic_events(next, rest);
        let evs = panic_events(s, panics);
        let tail = panic_events(next, rest);
        let allowed = s.max_restarts - s.restarts;
        assert forall|i: int| 0 <= i < evs.len() && i < allowed implies #[trigger] evs[i]
            == (EventView::Restarted { id: s.id, restarts: (s.restarts + i + 1) as u32 }) by {
            if i > 0 {
                assert(evs[i] == tail[i - 1]);
            }
        }
        if panics.len() > allowed {
            assert(evs[allowed] == tail[allowed - 1]);
            assert(rest[allowed - 1] == panics[allowed]);
        }
    }
}

/// A life in events: it begins with `Spawned`, goes on with one `Restarted` per
/// restart, numbered from one and at most `max_restarts` of them, has `Failed`
/// next if the actor panicked once more, and ends with `Stopped`.
pub proof fn law_life_in_events(
    id: ActorId,
    max: u32,
    name: Seq<char>,
    parent: Option<ActorId>,
    panics: Seq<(Seq<ActorId>, Seq<char>)>,
)
    requires
        max < u32::MAX || panics.len() <= max,
    ensures
        ({
            let s = Supervision { id, max_restarts: max, restarts: 0 };
            let evs = life_events(s, name, parent, panics);
            let failed = panics.len() > max;
            let restarts = if failed {
                max as int
            } else {
                panics.len() as int
            };
            &&& evs.len() == restarts + (if failed {
                3int
            } else {
                2int
            })
            &&& evs[0] == (EventView::Spawned { id, name, parent })
            &&& forall|i: int|
                1 <= i <= restarts ==> #[trigger] evs[i] == (EventView::Restarted {
                    id,
                    restarts: i as u32,
                })
            &&& failed ==> evs[restarts + 1] == (EventView::Failed {
                id,
                ancestry: panics[max as int].0,
                error: panics[max as int].1,
            })
            &&& evs.last() == (EventView::Stopped { id })
        }),
{
    let s = Supervision { id, max_restarts: max, restarts: 0 };
    lemma_panic_events(s, panics);
    let evs = life_events(s, name, parent, panics);
    let inner = panic_events(s, panics);
    assert forall|i: int| 1 <= i <= inner.len() implies #[trigger] evs[i] == inner[i - 1] by {}
}

} // verus!
