//! The turns of a pool that many tasks share.

use vstd::prelude::*;
use vstd::rwlock::{RwLock, RwLockPredicate};

use crate::pool::Opening;
use crate::turns::{Routed, Turns};

verus! {

/// The rotation is always in step with the messages that have taken their turn.
pub struct InStep;

impl<Msg: Send + 'static> RwLockPredicate<Turns<Msg>> for InStep {
    open spec fn inv(self, t: Turns<Msg>) -> bool {
        t.in_step()
    }
}

/// Where the messages of a pool take their turns, one at a time.
#[verifier::reject_recursive_types(Msg)]
pub struct Turnstile<Msg: Send + 'static> {
    turns: RwLock<Turns<Msg>, InStep>,
}

impl<Msg: Send + 'static> Turnstile<Msg> {
    /// The turns began like this.
    pub closed spec fn began(self, t: Turns<Msg>) -> bool {
        crate::shared::began(self.turns, t)
    }

    /// The turns went from `before` to `after` in one step.
    pub closed spec fn went(self, before: Turns<Msg>, after: Turns<Msg>) -> bool {
        crate::shared::replaced(self.turns, before, after)
    }

    /// The message came after `k` others and took its turn.
    pub open spec fn passed(self, before: Turns<Msg>, after: Turns<Msg>) -> bool {
        &&& self.went(before, after)
        &&& before.in_step()
        &&& after.taken() == before.taken() + 1
        &&& after.rotation() == before.rotation().drawn()
    }

    /// A turnstile that nobody has passed.
    pub(crate) fn new(opening: Opening) -> (s: Turnstile<Msg>)
        ensures
            exists|t: Turns<Msg>| #[trigger]
                s.began(t) && t.taken() == 0 && t.rotation() == (crate::pool::Rotation {
                    next: 0,
                }),
    {
        let turns = Turns::open(opening);
        let ghost first = turns;
        let s = Turnstile { turns: RwLock::new(turns, Ghost(InStep)) };
        assert(s.began(first));
        s
    }

    /// The message takes its turn among `size` workers.
    pub(crate) fn pass(&self, msg: Msg, size: usize) -> (r: Routed<Msg>)
        requires
            size > 0,
        ensures
            r.msg() == msg,
            r.worker() < size,
            exists|before: Turns<Msg>, after: Turns<Msg>| #[trigger]
                self.passed(before, after) && r.worker() == (before.taken() % (usize::MAX
                    + 1) as nat) % size as nat && r.worker() == before.rotation().slot(
                    size as int,
                ),
    {
        let (turns, lock) = self.turns.acquire_write();
        let ghost before = turns;
        let mut turns = turns;
        let routed = turns.take(msg, size);
        let ghost after = turns;
        lock.release_write(turns);
        assert(crate::shared::replaced(self.turns, before, after));
        assert(self.passed(before, after));
        routed
    }
}

/// Turns are taken under the lock, one ticket for each message.
proof fn law_turns_are_taken_under_the_lock<Msg: Send + 'static>(
    s: Turnstile<Msg>,
    before: Turns<Msg>,
    after: Turns<Msg>,
)
    ensures
        s.began(before) ==> crate::shared::began(s.turns, before),
        s.passed(before, after) ==> crate::shared::replaced(s.turns, before, after)
            && before.rotation().next == before.taken() % (usize::MAX + 1) as nat && after.taken()
            == before.taken() + 1,
{
}

} // verus!
