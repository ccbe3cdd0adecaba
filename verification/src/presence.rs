//! Whether anybody still refers to an actor.
//!
//! A supervised actor can always send to itself, so its mailbox never closes on
//! its own. What tells its loop that nobody else refers to it are leases: every
//! reference holds one, the loop itself does not. A lease is a sender of a channel
//! on which nothing is ever sent; once all leases are gone, that channel is closed.

use tokio::sync::mpsc;
use vstd::prelude::*;

verus! {

/// What a reference to an actor holds so that the actor does not end.
pub struct Lease {
    sender: mpsc::Sender<()>,
}

impl Clone for Lease {
    /// One more of the same leases.
    fn clone(&self) -> (l: Lease)
        ensures
            l == *self,
    {
        Lease { sender: self.sender.clone() }
    }
}

impl Lease {
    /// As long as this lease is held, nobody is told on `rx` that all are gone.
    pub closed spec fn holds_up(self, rx: mpsc::Receiver<()>) -> bool {
        crate::outside::opened(1, self.sender, rx)
    }
}

/// The loop's view of who refers to its actor.
pub struct Presence {
    /// Closed once all leases are gone. Nothing is ever received here.
    pub leases: mpsc::Receiver<()>,
    /// Leads to the leases that are out.
    source: mpsc::WeakSender<()>,
    /// The actor's own lease while it is at work.
    own: Option<Lease>,
}

impl Presence {
    /// The receiver that is closed once all leases are gone.
    pub closed spec fn watched(self) -> mpsc::Receiver<()> {
        self.leases
    }

    /// What leads to the leases that are out.
    pub closed spec fn source(self) -> mpsc::WeakSender<()> {
        self.source
    }

    /// The lease that the actor itself holds.
    pub closed spec fn own_lease(self) -> Option<Lease> {
        self.own
    }

    /// The leases that are out, if there are any, are like this one.
    pub closed spec fn gives(self, l: Lease) -> bool {
        crate::outside::downgraded(l.sender, self.source)
    }

    /// Looking for a lease that is out gave this one; `None` if all were gone.
    pub closed spec fn found(self, r: Option<Lease>) -> bool {
        exists|up: Option<mpsc::Sender<()>>| #[trigger]
            crate::outside::upgraded(self.source, up) && match up {
                Some(sender) => r == Some(Lease { sender }),
                None => r is None,
            }
    }

    /// Every lease that is out, the actor's own as well, holds up the receiver that
    /// the loop watches.
    pub open spec fn in_order(self) -> bool {
        exists|l: Lease| #[trigger]
            self.gives(l) && l.holds_up(self.watched()) && (self.own_lease() matches Some(own)
                ==> own == l)
    }

    /// The presence of a new actor, and the first lease.
    pub fn new() -> (r: (Presence, Lease))
        ensures
            r.1.holds_up(r.0.watched()),
            r.0.gives(r.1),
            r.0.own_lease() is None,
            r.0.in_order(),
    {
        let (sender, leases) = mpsc::channel(1);
        let source = sender.downgrade();
        let presence = Presence { leases, source, own: None };
        let lease = Lease { sender };
        assert(presence.gives(lease));
        (presence, lease)
    }

    /// The actor goes to work and holds a lease itself, so that references which it
    /// makes to itself meanwhile are as good as any. If all leases are gone, new
    /// ones are given out.
    pub fn attend(&mut self)
        ensures
            final(self).own_lease() is Some,
            old(self).own_lease() is Some ==> *final(self) == *old(self),
            old(self).own_lease() is None ==> {
                ||| old(self).found(final(self).own_lease()) && final(self).watched()
                    == old(self).watched() && final(self).source() == old(self).source()
                ||| old(self).found(None) && final(self).own_lease()->0.holds_up(
                    final(self).watched(),
                ) && final(self).gives(final(self).own_lease()->0)
            },
            old(self).in_order() ==> final(self).in_order(),
    {
        if self.own.is_none() {
            let up = self.source.upgrade();
            assert(crate::outside::upgraded(self.source, up));
            match up {
                Some(sender) => {
                    self.own = Some(Lease { sender });
                    proof {
                        if old(self).in_order() {
                            let l = choose|l: Lease| #[trigger]
                                old(self).gives(l) && l.holds_up(old(self).watched());
                            assert(self.gives(l));
                        }
                    }
                },
                None => {
                    let (sender, leases) = mpsc::channel(1);
                    self.source = sender.downgrade();
                    self.leases = leases;
                    self.own = Some(Lease { sender });
                    assert(self.gives(self.own_lease()->0));
                },
            }
        }
    }

    /// The actor's own lease once more.
    pub fn lease(&self) -> (r: Option<Lease>)
        ensures
            r == self.own_lease(),
    {
        match &self.own {
            Some(l) => Some(l.clone()),
            None => None,
        }
    }

    /// The actor is done for now and holds no lease any more.
    pub fn rest(&mut self)
        ensures
            final(self).own_lease() is None,
            final(self).watched() == old(self).watched(),
            final(self).source() == old(self).source(),
            old(self).in_order() ==> final(self).in_order(),
    {
        self.own = None;
        proof {
            if old(self).in_order() {
                let l = choose|l: Lease| #[trigger]
                    old(self).gives(l) && l.holds_up(old(self).watched());
                assert(self.gives(l));
            }
        }
    }
}

/// Leases are senders of the channel that the loop watches.
proof fn law_lease_evidence(p: Presence, l: Lease, rx: mpsc::Receiver<()>, r: Option<Lease>)
    ensures
        l.holds_up(rx) ==> crate::outside::opened(1, l.sender, rx),
        p.gives(l) ==> crate::outside::downgraded(l.sender, p.source),
        p.found(r) ==> exists|up: Option<mpsc::Sender<()>>| #[trigger]
            crate::outside::upgraded(p.source, up) && (r is Some <==> up is Some) && (r is Some
                ==> r->0.sender == up->0),
{
}

} // verus!
