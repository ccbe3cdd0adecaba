//! Status of the live actor tree.

use std::sync::Arc;
use std::time::Duration;
use tokio::sync::oneshot;
use vstd::prelude::*;
use vstd::string::*;

use crate::actor_ref::ActorRef;
use crate::event::SupervisionEvent;
use crate::handle::AskError;
use crate::id::ActorId;
use crate::stats::{millis_of, ActorStatsSnapshot};
use crate::text::text_of;

verus! {

/// Point-in-time status of one actor.
#[derive(Debug)]
pub struct ActorStatus {
    pub id: ActorId,
    pub name: String,
    pub parent: Option<ActorId>,
    pub alive: bool,
    pub busy: bool,
    pub mailbox_depth: usize,
    pub message_count: u64,
    pub restarts: u32,
    /// Milliseconds since this actor last started handling a message; `None` if
    /// it has never handled one.
    pub idle_ms: Option<u64>,
}

/// A node in the supervision tree snapshot.
#[derive(Debug)]
pub struct ActorNode {
    pub status: ActorStatus,
    pub children: Vec<ActorNode>,
}

impl Clone for ActorStatus {
    fn clone(&self) -> (s: ActorStatus)
        ensures
            s == *self,
    {
        ActorStatus {
            id: self.id,
            name: self.name.clone(),
            parent: self.parent,
            alive: self.alive,
            busy: self.busy,
            mailbox_depth: self.mailbox_depth,
            message_count: self.message_count,
            restarts: self.restarts,
            idle_ms: self.idle_ms,
        }
    }
}

impl ActorNode {
    /// Both nodes show the same actors in the same places.
    pub open spec fn same(self, other: ActorNode) -> bool
        decreases self,
    {
        &&& self.status == other.status
        &&& self.children@.len() == other.children@.len()
        &&& forall|i: int|
            0 <= i < self.children@.len() ==> (#[trigger] self.children@[i]).same(
                other.children@[i],
            )
    }
}

fn copy_node(node: &ActorNode) -> (copy: ActorNode)
    ensures
        node.same(copy),
    decreases *node,
{
    let mut children: Vec<ActorNode> = Vec::new();
    for i in 0..node.children.len()
        invariant
            children@.len() == i,
            forall|j: int| 0 <= j < i ==> (#[trigger] node.children@[j]).same(children@[j]),
    {
        assert(decreases_to!(*node => node.children@[i as int]));
        children.push(copy_node(&node.children[i]));
    }
    ActorNode { status: node.status.clone(), children }
}

impl Clone for ActorNode {
    fn clone(&self) -> (copy: ActorNode)
        ensures
            self.same(copy),
    {
        copy_node(self)
    }
}

/// Messages the status actor answers.
pub enum StatusMsg {
    /// Picture of the whole tree.
    GetTree(oneshot::Sender<Vec<ActorNode>>),
    /// Status of one actor.
    GetActor(ActorId, oneshot::Sender<Option<ActorStatus>>),
    /// The event log.
    RecentEvents(oneshot::Sender<Vec<String>>),
    /// Internal: fed by the event forwarder.
    Event(SupervisionEvent),
}

/// Cheap-clone handle to the status actor.
pub struct StatusRef {
    inner: ActorRef<StatusMsg>,
}

impl Clone for StatusRef {
    /// Another handle to the same status actor.
    fn clone(&self) -> (s: StatusRef)
        ensures
            s == *self,
    {
        StatusRef { inner: self.inner.clone() }
    }
}

impl StatusRef {
    /// The reference behind the handle.
    pub closed spec fn target(self) -> ActorRef<StatusMsg> {
        self.inner
    }

    pub(crate) fn new(inner: ActorRef<StatusMsg>) -> (s: StatusRef)
        ensures
            s.target() == inner,
    {
        StatusRef { inner }
    }

    /// Raw ref, for custom messages.
    pub fn raw(&self) -> (r: &ActorRef<StatusMsg>)
        ensures
            *r == self.target(),
    {
        &self.inner
    }
}

/// What a query for one actor gives, once the status actor has been asked: its
/// answer, or nothing if there was none.
pub fn actor_answer(r: Result<Option<ActorStatus>, AskError>) -> (s: Option<ActorStatus>)
    ensures
        s == match r {
            Ok(found) => found,
            Err(_) => None,
        },
{
    match r {
        Ok(found) => found,
        Err(_) => None,
    }
}

/// What a query for the tree or for the event log gives, once the status actor has
/// been asked: its answer, or an empty list if there was none.
pub fn list_answer<T>(r: Result<Vec<T>, AskError>) -> (list: Vec<T>)
    ensures
        list@ == match r {
            Ok(found) => found@,
            Err(_) => Seq::<T>::empty(),
        },
{
    match r {
        Ok(found) => found,
        Err(_) => Vec::new(),
    }
}

/// A status shows an actor as dead only if the actor was told to stop.
pub proof fn law_shown_dead_only_if_told_to_stop(
    s: ActorStatus,
    id: ActorId,
    node: crate::tree::Node,
)
    requires
        s.describes(id, node),
        !s.alive,
    ensures
        crate::cascade::told_to_stop(node.token),
{
}

/// What was read of one actor while its status was put together.
pub struct Reading {
    /// Whether its token was still uncancelled.
    pub alive: bool,
    /// Its counters.
    pub snapshot: ActorStatsSnapshot,
    /// How long it had been idle.
    pub idle: Option<Duration>,
}

impl ActorStatus {
    /// The status belongs to the actor that the tree knows as `node`, and shows
    /// what was read of it.
    pub open spec fn describes(self, id: ActorId, node: crate::tree::Node) -> bool {
        &&& self.id == id
        &&& self.name@ == node.name
        &&& self.parent == node.parent
        &&& self.restarts == node.restarts
        &&& exists|r: Reading| #[trigger] node.read_as(r) && self.shows(r)
    }

    /// The status shows what was read.
    pub open spec fn shows(self, r: Reading) -> bool {
        &&& self.alive == r.alive
        &&& self.busy == r.snapshot.is_busy
        &&& self.mailbox_depth == r.snapshot.mailbox_depth
        &&& self.message_count == r.snapshot.message_count
        &&& self.idle_ms == match r.idle {
            Some(d) => Some(
                crate::stats::whole_millis(crate::outside::nanos(d) as nat) as u64,
            ),
            None => None,
        }
    }
}

/// Put together what the tree knows of an actor and what was read of it.
pub fn status_from(
    id: ActorId,
    name: &Arc<str>,
    parent: Option<ActorId>,
    restarts: u32,
    reading: Reading,
) -> (s: ActorStatus)
    ensures
        s.id == id,
        s.name@ == name@,
        s.parent == parent,
        s.restarts == restarts,
        s.shows(reading),
{
    let idle_ms = match reading.idle {
        Some(d) => Some(millis_of(d)),
        None => None,
    };
    ActorStatus {
        id,
        name: String::from_str(text_of(name)),
        parent,
        alive: reading.alive,
        busy: reading.snapshot.is_busy,
        mailbox_depth: reading.snapshot.mailbox_depth,
        message_count: reading.snapshot.message_count,
        restarts,
        idle_ms,
    }
}

} // verus!
