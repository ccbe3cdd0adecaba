//! Sending messages to an actor.

use std::sync::Arc;
use tokio::sync::mpsc;
use tokio_util::sync::CancellationToken;
use vstd::prelude::*;
use vstd::string::*;

use crate::actor_ref::ActorRef;
use crate::dial::Dial;
use crate::incarnation::{Incarnation, LoopAction, LoopEvent};
use crate::outside::{offer, SendFailure};
use crate::presence::{Lease, Presence};
use crate::stats::{ActorStats, ActorStatsSnapshot};

verus! {

/// Places taken in a mailbox with `max` places of which `free` are free.
pub open spec fn occupied(max: usize, free: usize) -> usize {
    if free <= max {
        (max - free) as usize
    } else {
        0
    }
}

/// Number of messages waiting in a mailbox with `max` places, `free` of them
/// free.
pub fn depth_of(max: usize, free: usize) -> (depth: usize)
    ensures
        depth == occupied(max, free),
{
    max.saturating_sub(free)
}

/// Reads how many messages wait in one actor's mailbox, whatever their type.
pub trait DepthProbe: Send + Sync {
    /// The mailbox was read to hold `depth` waiting messages.
    spec fn reads(&self, depth: usize) -> bool;

    /// Messages waiting at the moment.
    fn depth(&self) -> (depth: usize)
        ensures
            self.reads(depth),
    ;
}

/// The mailbox behind `s` was read to hold `depth` waiting messages.
pub open spec fn depth_read<Msg>(s: mpsc::Sender<Msg>, depth: usize) -> bool {
    exists|max: usize, free: usize| #[trigger]
        crate::outside::room_read(s, max, free) && depth == occupied(max, free)
}

/// No more messages than the mailbox behind `s` was made for.
pub open spec fn within_buffer<Msg>(s: mpsc::Sender<Msg>, depth: usize) -> bool {
    forall|buffer: usize, rx: mpsc::Receiver<Msg>| #[trigger]
        crate::outside::opened(buffer, s, rx) ==> depth <= buffer
}

/// Number of messages waiting in the mailbox behind `s` at the moment.
fn current_depth<Msg: Send + 'static>(s: &mpsc::Sender<Msg>) -> (depth: usize)
    ensures
        depth_read(*s, depth),
        within_buffer(*s, depth),
{
    let max = s.max_capacity();
    let free = s.capacity();
    assert(crate::outside::room_read(*s, max, free));
    depth_of(max, free)
}

/// Reads the depth of the mailbox behind one sender.
#[verifier::reject_recursive_types(Msg)]
pub struct MailboxProbe<Msg: Send + 'static> {
    sender: mpsc::Sender<Msg>,
}

impl<Msg: Send + 'static> MailboxProbe<Msg> {
    /// A probe for the mailbox that `sender` feeds.
    pub fn new(sender: mpsc::Sender<Msg>) -> (p: MailboxProbe<Msg>)
        ensures
            p.target() == sender,
    {
        MailboxProbe { sender }
    }

    /// The sender whose mailbox is read.
    pub closed spec fn target(self) -> mpsc::Sender<Msg> {
        self.sender
    }
}

impl<Msg: Send + 'static> DepthProbe for MailboxProbe<Msg> {
    open spec fn reads(&self, depth: usize) -> bool {
        depth_read(self.target(), depth)
    }

    fn depth(&self) -> (depth: usize) {
        current_depth(&self.sender)
    }
}

/// Why a message could not be delivered at once.
#[derive(Debug, Clone, Copy, PartialEq, Eq, Structural)]
pub enum TellError {
    /// The mailbox has no room.
    MailboxFull,
    /// The actor no longer receives.
    ActorGone,
}

impl TellError {
    /// What the error says.
    pub open spec fn text(self) -> Seq<char> {
        match self {
            TellError::MailboxFull => "actor mailbox error: no available capacity"@,
            TellError::ActorGone => "actor mailbox error: channel closed"@,
        }
    }

    /// The error in words.
    pub fn message(&self) -> (s: String)
        ensures
            s@ == self.text(),
    {
        match self {
            TellError::MailboxFull => String::from_str(
                "actor mailbox error: no available capacity",
            ),
            TellError::ActorGone => String::from_str("actor mailbox error: channel closed"),
        }
    }
}

/// Why a request got no answer.
#[derive(Debug, Clone, Copy, PartialEq, Eq, Structural)]
pub enum AskError {
    /// The actor no longer receives.
    ActorDead,
    /// The actor took the request and never replied.
    NoReply,
}

impl AskError {
    /// What the error says.
    pub open spec fn text(self) -> Seq<char> {
        match self {
            AskError::ActorDead => "actor is dead — cannot send message"@,
            AskError::NoReply => "actor dropped reply sender without responding"@,
        }
    }

    /// The error in words.
    pub fn message(&self) -> (s: String)
        ensures
            s@ == self.text(),
    {
        match self {
            AskError::ActorDead => String::from_str("actor is dead — cannot send message"),
            AskError::NoReply => String::from_str("actor dropped reply sender without responding"),
        }
    }
}

/// The outcome of a `tell`, given what the mailbox answered.
pub open spec fn outcome<Msg>(answer: Result<(), SendFailure<Msg>>) -> Result<(), TellError> {
    match answer {
        Ok(()) => Ok(()),
        Err(SendFailure::Full(_)) => Err(TellError::MailboxFull),
        Err(SendFailure::Closed(_)) => Err(TellError::ActorGone),
    }
}

/// Turn what the mailbox answered into the outcome of a `tell`.
pub fn tell_outcome<Msg>(answer: Result<(), SendFailure<Msg>>) -> (r: Result<(), TellError>)
    ensures
        r == outcome(answer),
{
    match answer {
        Ok(()) => Ok(()),
        Err(SendFailure::Full(_)) => Err(TellError::MailboxFull),
        Err(SendFailure::Closed(_)) => Err(TellError::ActorGone),
    }
}

/// The outcome of an `ask`, given whether the request was `delivered` and the
/// `reply` that came, if one did.
pub fn ask_outcome<Resp>(delivered: bool, reply: Option<Resp>) -> (r: Result<Resp, AskError>)
    ensures
        r == match (delivered, reply) {
            (false, _) => Err::<Resp, AskError>(AskError::ActorDead),
            (true, None) => Err(AskError::NoReply),
            (true, Some(resp)) => Ok(resp),
        },
{
    if !delivered {
        return Err(AskError::ActorDead);
    }
    match reply {
        Some(resp) => Ok(resp),
        None => Err(AskError::NoReply),
    }
}

/// Cheap-clone handle to an actor's mailbox.
///
/// When all handles are dropped the actor's receive loop exits naturally. To
/// also control the actor's lifecycle, use [`ActorRef`]; share handles with code
/// that only needs to communicate.
#[verifier::reject_recursive_types(Msg)]
pub struct ActorHandle<Msg: Send + 'static> {
    sender: mpsc::Sender<Msg>,
    /// Keeps the actor from ending; `None` in the actor's own hands.
    lease: Option<Lease>,
    dial: Dial,
}

impl<Msg: Send + 'static> Clone for ActorHandle<Msg> {
    /// Another handle on the same mailbox and the same counters.
    fn clone(&self) -> (h: ActorHandle<Msg>)
        ensures
            h == *self,
    {
        let lease = match &self.lease {
            Some(l) => Some(l.clone()),
            None => None,
        };
        ActorHandle { sender: self.sender.clone(), lease, dial: self.dial.clone() }
    }
}

impl<Msg: Send + 'static> ActorHandle<Msg> {
    /// The sender that feeds the actor's mailbox.
    pub closed spec fn mailbox(self) -> mpsc::Sender<Msg> {
        self.sender
    }

    /// The actor's counters.
    pub closed spec fn counters(self) -> ActorStats {
        self.dial.counters()
    }

    /// The message was offered to the mailbox, and `r` is what came of it.
    pub open spec fn told(self, msg: Msg, r: Result<(), TellError>) -> bool {
        exists|answer: Result<(), SendFailure<Msg>>| #[trigger]
            crate::outside::offered(self.mailbox(), msg, answer) && r == outcome(answer)
    }

    /// The view shows the actor's counters and the depth of its mailbox as they
    /// were read.
    pub open spec fn reports(self, s: ActorStatsSnapshot) -> bool {
        exists|depth: usize| #[trigger]
            depth_read(self.mailbox(), depth) && self.counters().reports(depth, s)
    }

    /// What keeps the actor from ending while this handle is held.
    pub closed spec fn lease(self) -> Option<Lease> {
        self.lease
    }

    /// Both lead to the same mailbox and the same counters.
    pub open spec fn same_actor(self, other: ActorHandle<Msg>) -> bool {
        self.mailbox() == other.mailbox() && self.counters() == other.counters()
    }

    /// A handle on the same actor that holds this lease.
    pub(crate) fn holding(&self, lease: Option<Lease>) -> (h: ActorHandle<Msg>)
        ensures
            h.same_actor(*self),
            h.lease() == lease,
    {
        ActorHandle { sender: self.sender.clone(), lease, dial: self.dial.clone() }
    }

    /// The sender itself, for code that waits until the mailbox has room. It is the
    /// handle, and not a copy of this sender, that keeps the actor from ending.
    pub fn sender(&self) -> (s: &mpsc::Sender<Msg>)
        ensures
            *s == self.mailbox(),
    {
        &self.sender
    }

    /// Snapshot of the actor's activity counters and current mailbox depth.
    ///
    /// The depth is read live from the channel and is approximate: it leaves out
    /// any message currently being handled and may lag in-flight sends.
    pub fn stats(&self) -> (s: ActorStatsSnapshot)
        ensures
            self.reports(s),
            within_buffer(self.mailbox(), s.mailbox_depth),
            s.consistent(self.counters().base()),
    {
        let depth = current_depth(&self.sender);
        assert(depth_read(self.mailbox(), depth));
        self.dial.read(depth)
    }

    /// Fire-and-forget: send a message without waiting for a reply, or for room
    /// in the mailbox.
    ///
    /// Whether the mailbox takes it depends on the mailbox; [`tell_outcome`] says
    /// what each answer gives.
    pub fn tell(&self, msg: Msg) -> (r: Result<(), TellError>)
        ensures
            self.told(msg, r),
    {
        let answer = offer(&self.sender, msg);
        assert(crate::outside::offered(self.mailbox(), msg, answer));
        tell_outcome(answer)
    }
}

/// The receiving side of an actor, for the loop that runs it.
#[verifier::reject_recursive_types(Msg)]
pub struct Inbox<Msg: Send + 'static> {
    /// The receiving half of the mailbox.
    pub rx: mpsc::Receiver<Msg>,
    /// Cancelled when the actor is to stop.
    pub token: CancellationToken,
    /// Cancelled when the actor is to drain its mailbox and stop.
    pub poison: CancellationToken,
    /// Who refers to the actor.
    pub presence: Presence,
    /// The actor's counters.
    pub stats: Arc<ActorStats>,
}

impl<Msg: Send + 'static> Inbox<Msg> {
    /// The inbox belongs to the actor behind the reference: the mailbox is a new
    /// one for `buffer` messages, the counters begin, and whoever shuts down or
    /// poisons the actor reaches the loop, and nobody above it.
    pub open spec fn serves(self, actor: ActorRef<Msg>, buffer: usize) -> bool {
        &&& crate::outside::opened(buffer, actor.link().mailbox(), self.rx)
        &&& self.stats.fresh()
        &&& actor.link().counters() == *self.stats
        &&& actor.token() == self.token
        &&& actor.poison_token() == self.poison
        &&& crate::outside::independent(self.poison)
        &&& crate::cascade::spares_its_parent(self.token)
        &&& actor.link().lease() matches Some(l) && l.holds_up(self.presence.watched())
            && self.presence.gives(l)
        &&& self.presence.in_order()
        &&& self.presence.own_lease() is None
    }

    /// Decide what the loop does about what it found. A message that has left the
    /// mailbox is recorded as started before it is handled, and the actor holds a
    /// lease until [`Inbox::done`].
    pub fn dispatch(&mut self, run: &mut Incarnation, ev: LoopEvent<Msg>) -> (action: LoopAction<
        Msg,
    >)
        ensures
            action == crate::incarnation::answer(ev),
            final(run)@ == (old(run)@ || ev is Poisoned),
            ev is Message ==> old(self).stats.start_recorded(),
            ev is Message ==> final(self).presence.own_lease() is Some,
            ev !is Message ==> *final(self) == *old(self),
            final(self).is_still(*old(self)),
            old(self).presence.in_order() ==> final(self).presence.in_order(),
    {
        let action = run.step(ev);
        if let LoopAction::Handle(_) = &action {
            self.presence.attend();
            self.stats.record_start();
        }
        action
    }

    /// The message in hand is done: record that, and give up the lease.
    pub fn done(&mut self)
        ensures
            old(self).stats.finish_recorded(),
            final(self).presence.own_lease() is None,
            final(self).is_still(*old(self)),
            old(self).presence.in_order() ==> final(self).presence.in_order(),
    {
        self.stats.record_finish();
        self.presence.rest();
    }

    /// The same inbox: of the same mailbox, with the same tokens and counters.
    pub open spec fn is_still(self, before: Inbox<Msg>) -> bool {
        &&& self.rx == before.rx
        &&& self.token == before.token
        &&& self.poison == before.poison
        &&& self.stats == before.stats
    }
}

/// Set up an actor that stops with `token`.
pub(crate) fn open_inbox_under<Msg: Send + 'static>(
    token: CancellationToken,
    buffer: usize,
) -> (r: (ActorRef<Msg>, Inbox<Msg>))
    requires
        0 < buffer <= usize::MAX / 8,
    ensures
        r.1.serves(r.0, buffer),
        r.1.token == token,
{
    let (tx, rx) = mpsc::channel(buffer);
    let poison = CancellationToken::new();
    let stats = Arc::new(ActorStats::new());
    let (presence, lease) = Presence::new();
    let dial = Dial::new(stats.clone());
    let handle = ActorHandle { sender: tx, lease: Some(lease), dial };
    let actor = ActorRef::new(handle, token.clone(), poison.clone());
    (actor, Inbox { rx, token, poison, presence, stats })
}

/// These are the parts of an actor that was set up to stop with `token`. Its
/// poison is a token apart.
pub closed spec fn set_up<Msg: Send + 'static>(
    token: CancellationToken,
    buffer: usize,
    parts: (ActorRef<Msg>, Inbox<Msg>),
) -> bool {
    call_ensures(open_inbox_under::<Msg>, (token, buffer), parts)
}

/// Set up an unsupervised actor with a mailbox for `buffer` messages: a
/// lifecycle-aware [`ActorRef`] for its owner, and an [`Inbox`] for its loop.
///
/// The mailbox cannot be made with a `buffer` of zero, or beyond what it can
/// count.
pub fn open_inbox<Msg: Send + 'static>(buffer: usize) -> (r: (ActorRef<Msg>, Inbox<Msg>))
    requires
        0 < buffer <= usize::MAX / 8,
    ensures
        set_up(r.1.token, buffer, r),
        r.1.serves(r.0, buffer),
        crate::outside::independent(r.1.token),
{
    open_inbox_under(CancellationToken::new(), buffer)
}

} // verus!
