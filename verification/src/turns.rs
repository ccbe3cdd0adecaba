//! Whose turn it is, message by message.
//!
//! A turn is taken by giving up a message, and all that comes back is the same
//! message with the worker that it is for. Whoever has one message can therefore
//! take one turn, and nobody can take a turn for nothing.

use std::marker::PhantomData;
use tokio::sync::mpsc;
use vstd::prelude::*;

use crate::actor_ref::ActorRef;
use crate::handle::TellError;
use crate::pool::{Opening, Rotation};

verus! {

/// The rotation of a pool, together with how many messages have taken their turn.
#[verifier::reject_recursive_types(Msg)]
pub struct Turns<Msg: Send + 'static> {
    rotation: Rotation,
    taken: Ghost<nat>,
    messages: PhantomData<mpsc::Sender<Msg>>,
}

impl<Msg: Send + 'static> Turns<Msg> {
    /// Where the rotation stands.
    pub closed spec fn rotation(self) -> Rotation {
        self.rotation
    }

    /// How many messages have taken their turn.
    pub closed spec fn taken(self) -> nat {
        self.taken@
    }

    /// The rotation has moved on by one ticket for every message, starting over at
    /// zero after the last ticket.
    pub open spec fn in_step(self) -> bool {
        self.rotation().next == self.taken() % (usize::MAX + 1) as nat
    }

    /// The turns of a new pool: nobody has taken any.
    pub(crate) fn open(opening: Opening) -> (t: Turns<Msg>)
        ensures
            t.taken() == 0,
            t.rotation() == (Rotation { next: 0 }),
            t.in_step(),
    {
        let _ = opening;
        let t = Turns { rotation: Rotation::new(), taken: Ghost(0), messages: PhantomData };
        assert(0nat % (usize::MAX + 1) as nat == 0);
        t
    }

    /// The message takes its turn among `size` workers. The one that comes after `k`
    /// others is for the worker `k % size`.
    pub(crate) fn take(&mut self, msg: Msg, size: usize) -> (r: Routed<Msg>)
        requires
            size > 0,
            old(self).in_step(),
        ensures
            r.msg() == msg,
            r.worker() == (old(self).taken() % (usize::MAX + 1) as nat) % size as nat,
            r.worker() < size,
            r.worker() == old(self).rotation().slot(size as int),
            final(self).rotation() == old(self).rotation().drawn(),
            final(self).taken() == old(self).taken() + 1,
            final(self).in_step(),
    {
        let worker = self.rotation.draw(size);
        self.taken = Ghost(self.taken@ + 1);
        proof {
            let d = (usize::MAX + 1) as int;
            let k = old(self).taken() as int;
            vstd::arithmetic::div_mod::lemma_fundamental_div_mod(k, d);
            let q = k / d;
            let r = k % d;
            assert((q + 1) * d == q * d + d && d * q == q * d) by (nonlinear_arith);
            if r == usize::MAX {
                vstd::arithmetic::div_mod::lemma_fundamental_div_mod_converse(k + 1, d, q + 1, 0);
            } else {
                vstd::arithmetic::div_mod::lemma_fundamental_div_mod_converse(k + 1, d, q, r + 1);
            }
        }
        Routed { worker, msg }
    }
}

/// A message that has taken its turn and goes to one worker.
pub struct Routed<Msg: Send + 'static> {
    worker: usize,
    msg: Msg,
}

impl<Msg: Send + 'static> Routed<Msg> {
    /// The worker that the message is for.
    pub closed spec fn worker(self) -> usize {
        self.worker
    }

    /// The message.
    pub closed spec fn msg(self) -> Msg {
        self.msg
    }

    /// Offer the message to its worker.
    pub(crate) fn hand_over(self, workers: &Vec<ActorRef<Msg>>) -> (r: Result<(), TellError>)
        requires
            self.worker() < workers@.len(),
        ensures
            workers@[self.worker() as int].link().told(self.msg(), r),
    {
        workers[self.worker].tell(self.msg)
    }
}

} // verus!
