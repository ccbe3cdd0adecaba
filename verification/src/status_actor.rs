//! The status actor: answers queries about the live tree and keeps a log of
//! recent lifecycle events.

use std::collections::VecDeque;
use tokio::sync::oneshot;
use vstd::prelude::*;

use crate::event::SupervisionEvent;
use crate::lookout::Lookout;
use crate::status::{ActorNode, ActorStatus, StatusMsg};
use crate::supervisor::ActorSystem;

verus! {

/// How many lines the event log keeps.
pub const LOG_CAP: usize = 256;

/// Recent lifecycle events, oldest first, as lines of text.
pub struct EventLog {
    lines: VecDeque<String>,
}

impl View for EventLog {
    type V = Seq<Seq<char>>;

    closed spec fn view(&self) -> Seq<Seq<char>> {
        crate::text::texts(self.lines@)
    }
}

/// The log with one more line; the oldest line makes room if the log is full.
pub open spec fn appended(log: Seq<Seq<char>>, line: Seq<char>) -> Seq<Seq<char>> {
    if log.len() == LOG_CAP {
        log.drop_first().push(line)
    } else {
        log.push(line)
    }
}

/// The log after these lines have been appended to an empty one.
pub open spec fn log_of(lines: Seq<Seq<char>>) -> Seq<Seq<char>>
    decreases lines.len(),
{
    if lines.len() == 0 {
        seq![]
    } else {
        appended(log_of(lines.drop_last()), lines.last())
    }
}

/// The log holds the most recent lines, in order, and never more than it has
/// room for.
pub proof fn law_log_keeps_the_most_recent(lines: Seq<Seq<char>>)
    ensures
        log_of(lines) == if lines.len() <= LOG_CAP {
            lines
        } else {
            lines.skip(lines.len() - LOG_CAP)
        },
        log_of(lines).len() <= LOG_CAP,
    decreases lines.len(),
{
    if lines.len() > 0 {
        let front = lines.drop_last();
        law_log_keeps_the_most_recent(front);
        if lines.len() <= LOG_CAP {
            assert(front.push(lines.last()) =~= lines);
        } else if front.len() == LOG_CAP {
            assert(front.drop_first().push(lines.last()) =~= lines.skip(1));
        } else {
            assert(front.skip(front.len() - LOG_CAP).drop_first().push(lines.last())
                =~= lines.skip(lines.len() - LOG_CAP));
        }
    }
}

impl EventLog {
    /// An empty log.
    pub fn new() -> (log: EventLog)
        ensures
            log@ == Seq::<Seq<char>>::empty(),
    {
        let log = EventLog { lines: VecDeque::new() };
        assert(log@ =~= Seq::<Seq<char>>::empty());
        log
    }

    /// Append a line.
    pub fn push(&mut self, line: String)
        ensures
            final(self)@ == appended(old(self)@, line@),
    {
        if self.lines.len() == LOG_CAP {
            self.lines.pop_front();
        }
        self.lines.push_back(line);
        assert(self@ =~= appended(old(self)@, line@));
    }

    /// All lines, oldest first.
    pub fn lines(&self) -> (lines: Vec<String>)
        ensures
            crate::text::texts(lines@) == self@,
    {
        let mut lines: Vec<String> = Vec::new();
        for i in 0..self.lines.len()
            invariant
                lines@.len() == i,
                forall|j: int| 0 <= j < i ==> (#[trigger] lines@[j])@ == self.lines@[j]@,
        {
            lines.push(self.lines[i].clone());
        }
        assert(crate::text::texts(lines@) =~= self@);
        lines
    }
}

/// The state of the status actor. It can look at the tree, and keeps the log.
pub struct StatusState {
    lookout: Lookout,
    log: EventLog,
}

impl StatusState {
    /// The lines of the log.
    pub closed spec fn log(self) -> Seq<Seq<char>> {
        self.log@
    }

    /// The system that is reported on.
    pub closed spec fn system(self) -> ActorSystem {
        self.lookout.system()
    }

    /// A status actor for `system`, with an empty log.
    pub fn new(system: ActorSystem) -> (s: StatusState)
        ensures
            s.log() == Seq::<Seq<char>>::empty(),
            s.system() == system,
    {
        StatusState { lookout: system.lookout(), log: EventLog::new() }
    }

    /// The lines of the log, oldest first.
    pub fn recent_events(&self) -> (lines: Vec<String>)
        ensures
            crate::text::texts(lines@) == self.log(),
    {
        self.log.lines()
    }

    /// Work out the answer to a query, from the live tree or the log, or enter an
    /// event into the log.
    pub fn respond(&mut self, msg: StatusMsg) -> (answer: StatusAnswer)
        ensures
            final(self).system() == old(self).system(),
            final(self).log() == match msg {
                StatusMsg::Event(ev) => appended(
                    old(self).log(),
                    crate::event::event_text(ev@),
                ),
                _ => old(self).log(),
            },
            answer.answers(msg, old(self).system(), old(self).log()),
    {
        match msg {
            StatusMsg::GetTree(reply) => StatusAnswer::Tree(
                reply,
                self.lookout.forest(),
            ),
            StatusMsg::GetActor(id, reply) => StatusAnswer::Actor(
                reply,
                self.lookout.actor(id),
            ),
            StatusMsg::RecentEvents(reply) => StatusAnswer::Events(reply, self.recent_events()),
            StatusMsg::Event(ev) => {
                self.log.push(ev.describe());
                StatusAnswer::Nothing
            },
        }
    }

    /// Handle one message: [`StatusState::respond`], and send the answer.
    pub fn handle(&mut self, msg: StatusMsg)
        ensures
            final(self).system() == old(self).system(),
            final(self).log() == match msg {
                StatusMsg::Event(ev) => appended(
                    old(self).log(),
                    crate::event::event_text(ev@),
                ),
                _ => old(self).log(),
            },
            exists|answer: StatusAnswer| #[trigger]
                answer.answers(msg, old(self).system(), old(self).log()) && answer.delivered(),
    {
        let answer = self.respond(msg);
        let ghost given = answer;
        answer.deliver();
        assert(given.answers(msg, old(self).system(), old(self).log()));
    }
}

/// An answer of the status actor, with the channel to send it on.
pub enum StatusAnswer {
    Tree(oneshot::Sender<Vec<ActorNode>>, Vec<ActorNode>),
    Actor(oneshot::Sender<Option<ActorStatus>>, Option<ActorStatus>),
    Events(oneshot::Sender<Vec<String>>, Vec<String>),
    /// Nobody asked.
    Nothing,
}

impl StatusAnswer {
    /// The answer goes to whoever asked, and says what was asked for: a picture of
    /// the live tree, the status of the right actor, or the whole log.
    pub open spec fn answers(
        self,
        msg: StatusMsg,
        system: ActorSystem,
        log: Seq<Seq<char>>,
    ) -> bool {
        match msg {
            StatusMsg::GetTree(asker) => self matches StatusAnswer::Tree(reply, nodes) && reply
                == asker && system.forest_seen(nodes@),
            StatusMsg::GetActor(id, asker) => self matches StatusAnswer::Actor(reply, status)
                && reply == asker && system.status_of_seen(id, status),
            StatusMsg::RecentEvents(asker) => self matches StatusAnswer::Events(reply, lines)
                && reply == asker && crate::text::texts(lines@) == log,
            StatusMsg::Event(_) => self is Nothing,
        }
    }

    /// The answer was sent.
    pub open spec fn delivered(self) -> bool {
        match self {
            StatusAnswer::Tree(reply, nodes) => crate::outside::replied(reply, nodes),
            StatusAnswer::Actor(reply, status) => crate::outside::replied(reply, status),
            StatusAnswer::Events(reply, lines) => crate::outside::replied(reply, lines),
            StatusAnswer::Nothing => true,
        }
    }

    /// Send the answer. Whether anybody still waits for it does not matter.
    pub fn deliver(self)
        ensures
            self.delivered(),
    {
        match self {
            StatusAnswer::Tree(reply, nodes) => {
                let _ = reply.send(nodes);
            },
            StatusAnswer::Actor(reply, status) => {
                let _ = reply.send(status);
            },
            StatusAnswer::Events(reply, lines) => {
                let _ = reply.send(lines);
            },
            StatusAnswer::Nothing => {},
        }
    }
}

/// What the event subscription of the status actor yields.
pub enum FeedItem {
    /// The next event.
    Event(SupervisionEvent),
    /// So many events were missed.
    Lagged(u64),
    /// There will be no more events.
    Closed,
}

/// What the forwarder does with it.
pub enum ForwardStep {
    /// Send this message to the status actor, and stop if it is gone.
    Deliver(StatusMsg),
    /// Go on with the next item.
    Skip,
    /// Stop.
    Stop,
}

/// Decide what becomes of an item of the subscription: events go to the status
/// actor, missed ones are passed over, the end is the end.
pub fn forward_step(item: FeedItem) -> (step: ForwardStep)
    ensures
        step == match item {
            FeedItem::Event(ev) => ForwardStep::Deliver(StatusMsg::Event(ev)),
            FeedItem::Lagged(_) => ForwardStep::Skip,
            FeedItem::Closed => ForwardStep::Stop,
        },
{
    match item {
        FeedItem::Event(ev) => ForwardStep::Deliver(StatusMsg::Event(ev)),
        FeedItem::Lagged(_) => ForwardStep::Skip,
        FeedItem::Closed => ForwardStep::Stop,
    }
}

} // verus!
