//! What an actor knows of itself.

use std::sync::Arc;
use tokio_util::sync::CancellationToken;
use vstd::prelude::*;

use crate::actor_ref::ActorRef;
use crate::id::ActorId;
use crate::presence::Presence;
use crate::status::StatusRef;
use crate::supervisor::{ActorSystem, SpawnSite};
use crate::text::text_of;

verus! {

/// Context passed to the behaviour of every supervised actor.
///
/// Gives the actor read-only access to its own identity, its parent, its own
/// [`ActorRef`], and the supervising system. Cheap to clone.
#[verifier::reject_recursive_types(M)]
pub struct Context<M: Send + 'static> {
    id: ActorId,
    name: Arc<str>,
    parent: Option<ActorId>,
    token: CancellationToken,
    myself: ActorRef<M>,
    system: ActorSystem,
}

/// What a context says of its actor.
pub struct Identity {
    pub id: ActorId,
    pub name: Seq<char>,
    pub parent: Option<ActorId>,
    pub token: CancellationToken,
}

impl<M: Send + 'static> View for Context<M> {
    type V = Identity;

    closed spec fn view(&self) -> Identity {
        Identity { id: self.id, name: self.name@, parent: self.parent, token: self.token }
    }
}

impl<M: Send + 'static> Clone for Context<M> {
    /// The same context once more.
    fn clone(&self) -> (c: Context<M>)
        ensures
            c@ == self@,
            c.own_ref() == self.own_ref(),
            c.own_system() == self.own_system(),
    {
        proof {
            use_type_invariant(self);
        }
        Context {
            id: self.id,
            name: self.name.clone(),
            parent: self.parent,
            token: self.token.clone(),
            myself: self.myself.clone(),
            system: self.system.clone(),
        }
    }
}

impl<M: Send + 'static> Context<M> {
    /// The actor stops when the system does.
    #[verifier::type_invariant]
    closed spec fn inv(&self) -> bool {
        self.system.covers(self.token)
    }

    /// The reference that points back at the actor.
    pub closed spec fn own_ref(self) -> ActorRef<M> {
        self.myself
    }

    /// The supervising system.
    pub closed spec fn own_system(self) -> ActorSystem {
        self.system
    }

    /// The context of the actor `id` of `system`.
    pub(crate) fn new(
        id: ActorId,
        name: Arc<str>,
        parent: Option<ActorId>,
        token: CancellationToken,
        myself: ActorRef<M>,
        system: ActorSystem,
    ) -> (c: Context<M>)
        requires
            system.covers(token),
        ensures
            c@ == (Identity { id, name: name@, parent, token }),
            c.own_ref() == myself,
            c.own_system() == system,
    {
        Context { id, name, parent, token, myself, system }
    }

    /// The same context for the behaviour of the actor while it is at work: its
    /// reference to the actor holds the actor's own lease, as any reference does, so
    /// whoever keeps this context keeps the actor from ending.
    pub fn at_work(&self, presence: &Presence) -> (c: Context<M>)
        ensures
            c@ == self@,
            c.own_ref().same_actor(self.own_ref()),
            c.own_ref().link().lease() == presence.own_lease(),
            c.own_system() == self.own_system(),
    {
        proof {
            use_type_invariant(self);
        }
        Context {
            id: self.id,
            name: self.name.clone(),
            parent: self.parent,
            token: self.token.clone(),
            myself: self.myself.holding(presence.lease()),
            system: self.system.clone(),
        }
    }

    /// This actor's unique id.
    pub fn id(&self) -> (id: ActorId)
        ensures
            id == self@.id,
    {
        self.id
    }

    /// This actor's registered name.
    pub fn name(&self) -> (name: &str)
        ensures
            name@ == self@.name,
    {
        text_of(&self.name)
    }

    /// The parent actor's id, if any.
    pub fn parent_id(&self) -> (p: Option<ActorId>)
        ensures
            p == self@.parent,
    {
        self.parent
    }

    /// An [`ActorRef`] pointing back at this actor, for self-messages or to be
    /// passed on.
    pub fn myself(&self) -> (r: ActorRef<M>)
        ensures
            r == self.own_ref(),
    {
        self.myself.clone()
    }

    /// A reference to the supervising [`ActorSystem`].
    pub fn system(&self) -> (s: &ActorSystem)
        ensures
            *s == self.own_system(),
    {
        &self.system
    }

    /// The token whose cancellation stops this actor.
    pub fn token(&self) -> (t: &CancellationToken)
        ensures
            *t == self@.token,
    {
        &self.token
    }

    /// Where a child of this actor is spawned: below it in the tree, with a
    /// token that is cancelled when this actor's is.
    pub fn child_site(&self) -> (site: SpawnSite)
        ensures
            site.home() == self.own_system(),
            site.parent() == Some(self@.id),
            crate::outside::child_of(site.token(), self@.token),
            crate::cascade::stops_with(site.token(), self@.token),
            self.own_system().covers(site.token()),
    {
        proof {
            use_type_invariant(self);
        }
        let token = self.token.child_token();
        proof {
            crate::cascade::lemma_child_stops_with(
                token,
                self.token,
                self.system.root_source(),
            );
            crate::cascade::lemma_stops_with_itself(self.token);
            crate::cascade::lemma_child_stops_with(token, self.token, self.token);
        }
        SpawnSite::new(self.system.clone(), Some(self.id), token)
    }

    /// Handle to the system's status actor. The system must have been started.
    pub fn status(&self) -> (s: StatusRef)
        requires
            self.own_system().status_actor() is Some,
        ensures
            Some(s) == self.own_system().status_actor(),
    {
        self.system.status()
    }
}

} // verus!
