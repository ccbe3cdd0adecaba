//! What code that is allowed little can do to what everybody shares, and the logs
//! of what it did.
//!
//! A task that may act on a shared value only through one of these cannot act
//! without leaving an entry in its log: the log has to be handed in, and there is
//! only one. A contract that says what is in the log afterwards therefore says all
//! that was done. The functions here know nothing of the values that pass through
//! them, so they can neither copy one nor make up another.

use std::sync::Arc;
use tokio::sync::broadcast;
use tokio_util::sync::CancellationToken;
use vstd::prelude::*;
use vstd::rwlock::{RwLock, RwLockPredicate};

use crate::outside::publish;
use crate::supervisor::Birth;

verus! {

/// What was done through one reach, in order.
pub struct Log<T> {
    entries: Ghost<Seq<T>>,
}

impl<T> Log<T> {
    /// What was done so far.
    pub closed spec fn entries(self) -> Seq<T> {
        self.entries@
    }

    /// An empty log, for an actor that is being born.
    pub(crate) fn new(birth: &Birth) -> (l: Log<T>)
        ensures
            l.entries() == Seq::<T>::empty(),
    {
        let _ = birth;
        Log { entries: Ghost(Seq::empty()) }
    }
}

/// Can speak on one event stream.
#[verifier::reject_recursive_types(E)]
pub struct Voice<E> {
    sender: Arc<broadcast::Sender<E>>,
}

impl<E> Voice<E> {
    /// The stream.
    pub closed spec fn sender(self) -> broadcast::Sender<E> {
        *self.sender
    }

    pub(crate) fn new(sender: Arc<broadcast::Sender<E>>) -> (v: Voice<E>)
        ensures
            v.sender() == *sender,
    {
        Voice { sender }
    }

    /// Tell every subscriber.
    pub(crate) fn announce(&self, told: &mut Log<E>, ev: E)
        ensures
            crate::outside::published(self.sender(), ev),
            final(told).entries() == old(told).entries().push(ev),
    {
        let ghost said = ev;
        publish(&self.sender, ev);
        told.entries = Ghost(told.entries@.push(said));
    }
}

/// Can change and read one value under a lock.
#[verifier::reject_recursive_types(V)]
#[verifier::reject_recursive_types(P)]
pub struct Hand<V, P: RwLockPredicate<V>> {
    lock: Arc<RwLock<V, P>>,
}

impl<V, P: RwLockPredicate<V>> Hand<V, P> {
    /// The lock.
    pub closed spec fn lock(self) -> RwLock<V, P> {
        *self.lock
    }

    pub(crate) fn new(lock: Arc<RwLock<V, P>>) -> (h: Hand<V, P>)
        ensures
            h.lock() == *lock,
    {
        Hand { lock }
    }

    /// Change the value once.
    pub(crate) fn change<F: FnOnce(V) -> V>(&self, steps: &mut Log<(V, V)>, f: F)
        requires
            forall|v: V| #[trigger] self.lock().inv(v) ==> f.requires((v,)),
            forall|v: V, w: V|
                self.lock().inv(v) && #[trigger] f.ensures((v,), w) ==> self.lock().inv(w),
        ensures
            exists|v: V, w: V| #[trigger]
                crate::shared::replaced(self.lock(), v, w) && self.lock().inv(v) && f.ensures(
                    (v,),
                    w,
                ) && final(steps).entries() == old(steps).entries().push((v, w)),
    {
        let (v, handle) = self.lock.acquire_write();
        let ghost before = v;
        let w = f(v);
        let ghost after = w;
        handle.release_write(w);
        steps.entries = Ghost(steps.entries@.push((before, after)));
        assert(crate::shared::replaced(self.lock(), before, after));
    }

    /// Read the value.
    pub(crate) fn look<R, F: FnOnce(&V) -> R>(&self, f: F) -> (r: R)
        requires
            forall|v: V| #[trigger] self.lock().inv(v) ==> f.requires((&v,)),
        ensures
            exists|v: V| #[trigger]
                crate::shared::found(self.lock(), v) && self.lock().inv(v) && f.ensures((&v,), r),
    {
        let handle = self.lock.acquire_read();
        let v = handle.borrow();
        let ghost seen = *v;
        let r = f(v);
        assert(crate::shared::found(self.lock(), seen));
        handle.release_read();
        r
    }
}

/// Can cancel one token.
pub struct StopSwitch {
    token: CancellationToken,
}

impl StopSwitch {
    /// The token.
    pub closed spec fn token(self) -> CancellationToken {
        self.token
    }

    pub(crate) fn new(token: CancellationToken) -> (s: StopSwitch)
        ensures
            s.token() == token,
    {
        StopSwitch { token }
    }

    /// Cancel the token.
    pub(crate) fn pull(&self, pulled: &mut Log<CancellationToken>)
        ensures
            crate::outside::cancelled(self.token()),
            final(pulled).entries() == old(pulled).entries().push(self.token()),
    {
        self.token.cancel();
        pulled.entries = Ghost(pulled.entries@.push(self.token));
    }
}

/// Something that nobody can use any more.
pub struct Spent<T> {
    what: T,
}

impl<T> View for Spent<T> {
    type V = T;

    closed spec fn view(&self) -> T {
        self.what
    }
}

impl<T> Spent<T> {
    pub(crate) fn new(what: T) -> (s: Spent<T>)
        ensures
            s@ == what,
    {
        Spent { what }
    }
}

} // verus!
