//! Owning an actor's lifetime.

use tokio_util::sync::CancellationToken;
use vstd::prelude::*;

use crate::handle::{ActorHandle, TellError};
use crate::presence::Lease;
use crate::stats::ActorStatsSnapshot;

verus! {

/// Lifecycle-aware wrapper around [`ActorHandle`].
///
/// The owner of an `ActorRef` controls the actor's lifetime via
/// [`ActorRef::shutdown`]. Code that only needs to send messages should receive
/// a cloned [`ActorHandle`] via [`ActorRef::handle`].
#[verifier::reject_recursive_types(Msg)]
pub struct ActorRef<Msg: Send + 'static> {
    handle: ActorHandle<Msg>,
    token: CancellationToken,
    poison: CancellationToken,
}

impl<Msg: Send + 'static> Clone for ActorRef<Msg> {
    /// Another reference to the same actor.
    fn clone(&self) -> (r: ActorRef<Msg>)
        ensures
            r == *self,
    {
        ActorRef {
            handle: self.handle.clone(),
            token: self.token.clone(),
            poison: self.poison.clone(),
        }
    }
}

impl<Msg: Send + 'static> ActorRef<Msg> {
    /// The handle to the actor's mailbox.
    pub closed spec fn link(self) -> ActorHandle<Msg> {
        self.handle
    }

    /// The token whose cancellation stops the actor.
    pub closed spec fn token(self) -> CancellationToken {
        self.token
    }

    /// The token whose cancellation has the actor drain its mailbox and stop.
    pub closed spec fn poison_token(self) -> CancellationToken {
        self.poison
    }

    /// A reference made of its parts.
    pub(crate) fn new(
        handle: ActorHandle<Msg>,
        token: CancellationToken,
        poison: CancellationToken,
    ) -> (r: ActorRef<Msg>)
        ensures
            r.link() == handle,
            r.token() == token,
            r.poison_token() == poison,
    {
        ActorRef { handle, token, poison }
    }

    /// Both refer to the same actor: they send to the same mailbox, read the same
    /// counters, and stop the same actor.
    pub open spec fn same_actor(self, other: ActorRef<Msg>) -> bool {
        &&& self.link().same_actor(other.link())
        &&& self.token() == other.token()
        &&& self.poison_token() == other.poison_token()
    }

    /// A reference to the same actor that holds this lease. Without one it does not
    /// keep the actor from ending.
    pub(crate) fn holding(&self, lease: Option<Lease>) -> (r: ActorRef<Msg>)
        ensures
            r.same_actor(*self),
            r.link().lease() == lease,
    {
        ActorRef {
            handle: self.handle.holding(lease),
            token: self.token.clone(),
            poison: self.poison.clone(),
        }
    }

    /// Fire-and-forget: send a message without waiting for a reply.
    /// See [`ActorHandle::tell`].
    pub fn tell(&self, msg: Msg) -> (r: Result<(), TellError>)
        ensures
            self.link().told(msg, r),
    {
        self.handle.tell(msg)
    }

    /// Cancel the actor's token, causing its loop to exit cleanly after any
    /// message in hand is done.
    pub fn shutdown(&self)
        ensures
            crate::outside::cancelled(self.token()),
    {
        self.token.cancel();
    }

    /// Graceful stop: stop accepting new messages, drain what is already
    /// queued, then exit. Contrast with [`ActorRef::shutdown`], which stops as
    /// soon as the message in hand is done.
    pub fn poison(&self)
        ensures
            crate::outside::cancelled(self.poison_token()),
    {
        self.poison.cancel();
    }

    /// Returns `true` if the actor has not yet been shut down. `false` comes only if
    /// it was told to stop, itself or with somebody above it.
    pub fn is_alive(&self) -> (alive: bool)
        ensures
            crate::outside::cancel_read(self.token(), !alive),
            !alive ==> crate::cascade::told_to_stop(self.token()),
    {
        !self.token.is_cancelled()
    }

    /// Snapshot of the actor's activity counters and current mailbox depth.
    /// See [`ActorHandle::stats`].
    pub fn stats(&self) -> (s: ActorStatsSnapshot)
        ensures
            self.link().reports(s),
            crate::handle::within_buffer(self.link().mailbox(), s.mailbox_depth),
            s.consistent(self.link().counters().base()),
    {
        self.handle.stats()
    }

    /// Borrow the underlying [`ActorHandle`] for code that only needs to
    /// communicate with the actor, not own its lifecycle.
    pub fn handle(&self) -> (h: &ActorHandle<Msg>)
        ensures
            *h == self.link(),
    {
        &self.handle
    }

    /// Create a child cancellation token that is cancelled automatically when
    /// this actor shuts down.
    pub fn child_token(&self) -> (t: CancellationToken)
        ensures
            crate::outside::child_of(t, self.token()),
    {
        self.token.child_token()
    }
}

} // verus!
