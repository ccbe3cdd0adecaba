//! Lifecycle events of supervised actors.

use std::sync::Arc;
use vstd::prelude::*;
use vstd::string::*;

use crate::id::ActorId;
use crate::outside::quote;
use crate::text::{append_decimal, text_of};

verus! {

/// Lifecycle events broadcast by the system. Subscribe via
/// [`ActorSystem::events`](crate::ActorSystem::events).
#[derive(Debug)]
pub enum SupervisionEvent {
    /// The actor has been registered and is about to run.
    Spawned { id: ActorId, name: Arc<str>, parent: Option<ActorId> },
    /// The actor panicked and runs again; `restarts` counts how often it did.
    Restarted { id: ActorId, restarts: u32 },
    /// The actor panicked once too often. `ancestry` is its parent chain,
    /// nearest first.
    Failed { id: ActorId, ancestry: Vec<ActorId>, error: Arc<str> },
    /// The actor is gone.
    Stopped { id: ActorId },
}

/// What an event says.
pub enum EventView {
    Spawned { id: ActorId, name: Seq<char>, parent: Option<ActorId> },
    Restarted { id: ActorId, restarts: u32 },
    Failed { id: ActorId, ancestry: Seq<ActorId>, error: Seq<char> },
    Stopped { id: ActorId },
}

impl View for SupervisionEvent {
    type V = EventView;

    open spec fn view(&self) -> EventView {
        match self {
            SupervisionEvent::Spawned { id, name, parent } => EventView::Spawned {
                id: *id,
                name: name@,
                parent: *parent,
            },
            SupervisionEvent::Restarted { id, restarts } => EventView::Restarted {
                id: *id,
                restarts: *restarts,
            },
            SupervisionEvent::Failed { id, ancestry, error } => EventView::Failed {
                id: *id,
                ancestry: ancestry@,
                error: error@,
            },
            SupervisionEvent::Stopped { id } => EventView::Stopped { id: *id },
        }
    }
}

/// A copy of a list of ids.
pub fn copy_ids(ids: &Vec<ActorId>) -> (copy: Vec<ActorId>)
    ensures
        copy@ == ids@,
{
    let mut copy: Vec<ActorId> = Vec::new();
    for i in 0..ids.len()
        invariant
            copy@ == ids@.take(i as int),
    {
        copy.push(ids[i]);
        assert(ids@.take(i + 1) =~= ids@.take(i as int).push(ids@[i as int]));
    }
    assert(ids@.take(ids@.len() as int) =~= ids@);
    copy
}

impl Clone for SupervisionEvent {
    fn clone(&self) -> (ev: SupervisionEvent)
        ensures
            ev@ == self@,
    {
        match self {
            SupervisionEvent::Spawned { id, name, parent } => SupervisionEvent::Spawned {
                id: *id,
                name: name.clone(),
                parent: *parent,
            },
            SupervisionEvent::Restarted { id, restarts } => SupervisionEvent::Restarted {
                id: *id,
                restarts: *restarts,
            },
            SupervisionEvent::Failed { id, ancestry, error } => SupervisionEvent::Failed {
                id: *id,
                ancestry: copy_ids(ancestry),
                error: error.clone(),
            },
            SupervisionEvent::Stopped { id } => SupervisionEvent::Stopped { id: *id },
        }
    }
}

/// `ActorId(n)`.
pub open spec fn id_text(id: ActorId) -> Seq<char> {
    "ActorId("@ + crate::text::decimal(id@ as nat) + ")"@
}

/// `None` or `Some(ActorId(n))`.
pub open spec fn parent_text(parent: Option<ActorId>) -> Seq<char> {
    match parent {
        None => "None"@,
        Some(id) => "Some("@ + id_text(id) + ")"@,
    }
}

/// The ids one after another, separated by a comma and a space.
pub open spec fn ids_text(ids: Seq<ActorId>) -> Seq<char>
    decreases ids.len(),
{
    if ids.len() == 0 {
        seq![]
    } else if ids.len() == 1 {
        id_text(ids[0])
    } else {
        ids_text(ids.drop_last()) + ", "@ + id_text(ids.last())
    }
}

/// One line of the event log.
pub open spec fn event_text(ev: EventView) -> Seq<char> {
    match ev {
        EventView::Spawned { id, name, parent } => "Spawned { id: "@ + id_text(id) + ", name: "@
            + crate::outside::quoted(name) + ", parent: "@ + parent_text(parent) + " }"@,
        EventView::Restarted { id, restarts } => "Restarted { id: "@ + id_text(id)
            + ", restarts: "@ + crate::text::decimal(restarts as nat) + " }"@,
        EventView::Failed { id, ancestry, error } => "Failed { id: "@ + id_text(id)
            + ", ancestry: ["@ + ids_text(ancestry) + "], error: "@ + crate::outside::quoted(error)
            + " }"@,
        EventView::Stopped { id } => "Stopped { id: "@ + id_text(id) + " }"@,
    }
}

fn append_id(out: &mut String, id: ActorId)
    ensures
        final(out)@ == old(out)@ + id_text(id),
{
    out.append("ActorId(");
    append_decimal(out, id.value());
    out.append(")");
    assert(out@ =~= old(out)@ + id_text(id));
}

fn append_ids(out: &mut String, ids: &Vec<ActorId>)
    ensures
        final(out)@ == old(out)@ + ids_text(ids@),
{
    let ghost start = out@;
    assert(ids@.take(0) =~= seq![]);
    assert(start + ids_text(ids@.take(0)) =~= start);
    for i in 0..ids.len()
        invariant
            out@ == start + ids_text(ids@.take(i as int)),
    {
        if i > 0 {
            out.append(", ");
        }
        append_id(out, ids[i]);
        proof {
            let longer = ids@.take(i + 1);
            assert(longer.drop_last() =~= ids@.take(i as int));
            assert(longer.last() == ids@[i as int]);
            assert(out@ =~= start + ids_text(longer));
        }
    }
    assert(ids@.take(ids@.len() as int) =~= ids@);
}

impl SupervisionEvent {
    /// The event as one line of text.
    pub fn describe(&self) -> (line: String)
        ensures
            line@ == event_text(self@),
    {
        let mut out = String::new();
        match self {
            SupervisionEvent::Spawned { id, name, parent } => {
                out.append("Spawned { id: ");
                append_id(&mut out, *id);
                out.append(", name: ");
                out.append(quote(text_of(name)).as_str());
                out.append(", parent: ");
                match parent {
                    None => {
                        out.append("None");
                    },
                    Some(p) => {
                        out.append("Some(");
                        append_id(&mut out, *p);
                        out.append(")");
                    },
                }
                out.append(" }");
            },
            SupervisionEvent::Restarted { id, restarts } => {
                out.append("Restarted { id: ");
                append_id(&mut out, *id);
                out.append(", restarts: ");
                append_decimal(&mut out, *restarts as u64);
                out.append(" }");
            },
            SupervisionEvent::Failed { id, ancestry, error } => {
                out.append("Failed { id: ");
                append_id(&mut out, *id);
                out.append(", ancestry: [");
                append_ids(&mut out, ancestry);
                out.append("], error: ");
                out.append(quote(text_of(error)).as_str());
                out.append(" }");
            },
            SupervisionEvent::Stopped { id } => {
                out.append("Stopped { id: ");
                append_id(&mut out, *id);
                out.append(" }");
            },
        }
        assert(out@ =~= event_text(self@));
        out
    }
}

} // verus!
