//! Reading an actor's counters without being able to change them.

use std::sync::Arc;
use vstd::prelude::*;

use crate::stats::{ActorStats, ActorStatsSnapshot};

verus! {

/// Shows the counters of one actor.
pub struct Dial {
    stats: Arc<ActorStats>,
}

impl Clone for Dial {
    /// Another dial for the same counters.
    fn clone(&self) -> (d: Dial)
        ensures
            d == *self,
    {
        Dial { stats: self.stats.clone() }
    }
}

impl Dial {
    /// The counters.
    pub closed spec fn counters(self) -> ActorStats {
        *self.stats
    }

    pub(crate) fn new(stats: Arc<ActorStats>) -> (d: Dial)
        ensures
            d.counters() == *stats,
    {
        Dial { stats }
    }

    /// Point-in-time view: [`ActorStats::snapshot`].
    pub(crate) fn read(&self, mailbox_depth: usize) -> (s: ActorStatsSnapshot)
        ensures
            self.counters().reports(mailbox_depth, s),
            s.consistent(self.counters().base()),
    {
        self.stats.snapshot(mailbox_depth)
    }
}

} // verus!
