//! One run of an actor: what its receive loop does with what it finds.

use vstd::prelude::*;

verus! {

/// What the receive loop finds between two messages. If several things are
/// ready at once, the first in this order counts.
pub enum LoopEvent<M> {
    /// The actor's token has been cancelled.
    Cancelled,
    /// The actor has been poisoned.
    Poisoned,
    /// A message left the mailbox.
    Message(M),
    /// The mailbox is empty and takes no more messages.
    Closed,
    /// The mailbox is empty and nobody refers to the actor any more.
    Abandoned,
}

/// What the loop has found once nobody refers to the actor any more: the message
/// that was `waiting` then, for the last reference may have sent one before it went,
/// or that the actor is abandoned.
pub fn unreferenced<M>(waiting: Option<M>) -> (ev: LoopEvent<M>)
    ensures
        ev == match waiting {
            Some(m) => LoopEvent::Message(m),
            None => LoopEvent::Abandoned,
        },
{
    match waiting {
        Some(m) => LoopEvent::Message(m),
        None => LoopEvent::Abandoned,
    }
}

/// What the receive loop does next.
pub enum LoopAction<M> {
    /// Leave the loop: a clean exit.
    Stop,
    /// Close the mailbox and go on with what is in it.
    Drain,
    /// Handle the message, then go on.
    Handle(M),
}

/// The state of one receive loop. A restarted actor gets a new one.
pub struct Incarnation {
    draining: bool,
}

impl View for Incarnation {
    type V = bool;

    /// Whether the loop only drains its mailbox.
    closed spec fn view(&self) -> bool {
        self.draining
    }
}

/// The action that answers an event.
pub open spec fn answer<M>(ev: LoopEvent<M>) -> LoopAction<M> {
    match ev {
        LoopEvent::Cancelled => LoopAction::Stop,
        LoopEvent::Poisoned => LoopAction::Drain,
        LoopEvent::Message(m) => LoopAction::Handle(m),
        LoopEvent::Closed => LoopAction::Stop,
        LoopEvent::Abandoned => LoopAction::Stop,
    }
}

impl Incarnation {
    /// A loop that has just begun.
    pub fn new() -> (i: Incarnation)
        ensures
            !i@,
    {
        Incarnation { draining: false }
    }

    /// Whether poison has been seen already and need not be watched any more.
    pub fn is_draining(&self) -> (b: bool)
        ensures
            b == self@,
    {
        self.draining
    }

    /// Decide what to do with an event.
    pub fn step<M>(&mut self, ev: LoopEvent<M>) -> (action: LoopAction<M>)
        ensures
            action == answer(ev),
            final(self)@ == (old(self)@ || ev is Poisoned),
    {
        match ev {
            LoopEvent::Cancelled => LoopAction::Stop,
            LoopEvent::Poisoned => {
                self.draining = true;
                LoopAction::Drain
            },
            LoopEvent::Message(m) => LoopAction::Handle(m),
            LoopEvent::Closed => LoopAction::Stop,
            LoopEvent::Abandoned => LoopAction::Stop,
        }
    }
}

/// The messages that a loop handles when it meets these events one after the
/// other: those before the first event that stops it.
pub open spec fn handled<M>(events: Seq<LoopEvent<M>>) -> Seq<M>
    decreases events.len(),
{
    if events.len() == 0 {
        seq![]
    } else {
        match answer(events[0]) {
            LoopAction::Stop => seq![],
            LoopAction::Drain => handled(events.drop_first()),
            LoopAction::Handle(m) => seq![m] + handled(events.drop_first()),
        }
    }
}

/// Whether a loop has left when it has met these events.
pub open spec fn stopped<M>(events: Seq<LoopEvent<M>>) -> bool {
    exists|i: int| 0 <= i < events.len() && answer(#[trigger] events[i]) is Stop
}

proof fn lemma_handled_split<M>(a: Seq<LoopEvent<M>>, b: Seq<LoopEvent<M>>)
    ensures
        handled(a + b) == if stopped(a) {
            handled(a)
        } else {
            handled(a) + handled(b)
        },
    decreases a.len(),
{
    if a.len() == 0 {
        assert(a + b =~= b);
        assert(handled(a) + handled(b) =~= handled(b));
    } else {
        let rest = a.drop_first();
        assert((a + b).drop_first() =~= rest + b);
        lemma_handled_split(rest, b);
        if answer(a[0]) is Stop {
            assert(stopped(a));
        } else {
            assert(stopped(a) == stopped(rest)) by {
                if stopped(rest) {
                    let i = choose|i: int|
                        0 <= i < rest.len() && answer(#[trigger] rest[i]) is Stop;
                    assert(a[i + 1] == rest[i]);
                }
                if stopped(a) {
                    let i = choose|i: int| 0 <= i < a.len() && answer(#[trigger] a[i]) is Stop;
                    assert(rest[i - 1] == a[i]);
                }
            }
            if let LoopAction::Handle(m) = answer(a[0]) {
                assert(seq![m] + (handled(rest) + handled(b)) =~= (seq![m] + handled(rest))
                    + handled(b));
            }
        }
    }
}

/// Messages are handled in the order in which they leave the mailbox, each once:
/// a loop that meets nothing but messages handles exactly those.
pub proof fn law_messages_in_order<M>(msgs: Seq<M>)
    ensures
        handled(msgs.map_values(|m: M| LoopEvent::Message(m))) == msgs,
    decreases msgs.len(),
{
    let events = msgs.map_values(|m: M| LoopEvent::Message(m));
    if msgs.len() > 0 {
        law_messages_in_order(msgs.drop_first());
        assert(events.drop_first() =~= msgs.drop_first().map_values(
            |m: M| LoopEvent::Message(m),
        ));
        assert(seq![msgs[0]] + msgs.drop_first() =~= msgs);
    } else {
        assert(events =~= seq![]);
        assert(msgs =~= seq![]);
    }
}

/// The messages among the events, in order.
pub open spec fn messages<M>(events: Seq<LoopEvent<M>>) -> Seq<M>
    decreases events.len(),
{
    if events.len() == 0 {
        seq![]
    } else {
        match events[0] {
            LoopEvent::Message(m) => seq![m] + messages(events.drop_first()),
            _ => messages(events.drop_first()),
        }
    }
}

/// No phantom delivery: whatever else happens, the messages handled are the first
/// of those that left the mailbox, in order and each once. If the loop has not
/// left, they are all of them.
pub proof fn law_no_phantom_delivery<M>(events: Seq<LoopEvent<M>>)
    ensures
        handled(events).is_prefix_of(messages(events)),
        !stopped(events) ==> handled(events) == messages(events),
    decreases events.len(),
{
    if events.len() > 0 {
        let rest = events.drop_first();
        law_no_phantom_delivery(rest);
        assert(stopped(rest) ==> stopped(events)) by {
            if stopped(rest) {
                let i = choose|i: int| 0 <= i < rest.len() && answer(#[trigger] rest[i]) is Stop;
                assert(events[i + 1] == rest[i]);
            }
        }
        if let LoopEvent::Message(m) = events[0] {
            let h = handled(rest);
            let all = messages(rest);
            assert(h =~= all.subrange(0, h.len() as int));
            assert((seq![m] + h) =~= (seq![m] + all).subrange(0, (h.len() + 1) as int));
        }
    }
}

/// Shutdown is checked between messages and is final: once the loop has met a
/// cancellation, no later message is handled, and none before it is lost.
pub proof fn law_shutdown_is_final<M>(before: Seq<LoopEvent<M>>, after: Seq<LoopEvent<M>>)
    ensures
        handled(before.push(LoopEvent::Cancelled) + after) == handled(before),
        stopped(before.push(LoopEvent::Cancelled)),
{
    let a = before.push(LoopEvent::Cancelled);
    assert(a[before.len() as int] == LoopEvent::<M>::Cancelled);
    lemma_handled_split(a, after);
    assert(a =~= before + seq![LoopEvent::Cancelled]);
    lemma_handled_split(before, seq![LoopEvent::Cancelled]);
    assert(handled(before) + handled(seq![LoopEvent::<M>::Cancelled]) =~= handled(before));
}

/// Poison drains: it costs no message. The loop handles the same messages with
/// the poison as without it, and leaves only when it would have left anyway.
pub proof fn law_poison_loses_no_message<M>(before: Seq<LoopEvent<M>>, after: Seq<LoopEvent<M>>)
    ensures
        handled(before.push(LoopEvent::Poisoned) + after) == handled(before + after),
        stopped(before.push(LoopEvent::Poisoned) + after) == stopped(before + after),
{
    let p = seq![LoopEvent::<M>::Poisoned];
    let a = before.push(LoopEvent::Poisoned);
    assert(a + after =~= before + (p + after));
    lemma_handled_split(before, p + after);
    lemma_handled_split(before, after);
    assert((p + after).drop_first() =~= after);
    assert(handled(p + after) == handled(after));
    let with = a + after;
    let plain = before + after;
    if stopped(with) {
        let i = choose|i: int| 0 <= i < with.len() && answer(#[trigger] with[i]) is Stop;
        if i < before.len() {
            assert(plain[i] == with[i]);
        } else {
            assert(plain[i - 1] == with[i]);
        }
    }
    if stopped(plain) {
        let i = choose|i: int| 0 <= i < plain.len() && answer(#[trigger] plain[i]) is Stop;
        if i < before.len() {
            assert(with[i] == plain[i]);
        } else {
            assert(with[i + 1] == plain[i]);
        }
    }
}

} // verus!
