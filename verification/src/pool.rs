//! A pool of identical actors.

use vstd::prelude::*;

use crate::actor_ref::ActorRef;
use crate::handle::TellError;
use crate::turns::Turns;
use crate::turnstile::Turnstile;

verus! {

/// Whose turn it is. Messages draw tickets, numbered from zero; they start over
/// at zero after the last number.
pub struct Rotation {
    /// The ticket that the next message draws.
    pub next: usize,
}

impl Rotation {
    /// The worker that the next ticket is for, among `size`.
    pub open spec fn slot(self, size: int) -> int {
        self.next as int % size
    }

    /// The rotation after one more ticket has been drawn.
    pub open spec fn drawn(self) -> Rotation {
        Rotation {
            next: if self.next == usize::MAX {
                0
            } else {
                (self.next + 1) as usize
            },
        }
    }

    /// A rotation that begins with the first worker.
    pub fn new() -> (r: Rotation)
        ensures
            r.next == 0,
    {
        Rotation { next: 0 }
    }

    /// Draw a ticket: the worker that it is for, among `size`.
    pub fn draw(&mut self, size: usize) -> (slot: usize)
        requires
            size > 0,
        ensures
            slot == old(self).slot(size as int),
            slot < size,
            *final(self) == old(self).drawn(),
    {
        let slot = self.next % size;
        self.next = self.next.wrapping_add(1);
        slot
    }
}

/// What a pool that is being made shows to have its turns begin. Nobody else has
/// one, so turns never begin anew.
pub struct Opening(());

/// How many of the `true`s there are.
pub open spec fn count(flags: Seq<bool>) -> nat
    decreases flags.len(),
{
    if flags.len() == 0 {
        0
    } else {
        count(flags.drop_last()) + if flags.last() {
            1nat
        } else {
            0nat
        }
    }
}

proof fn lemma_count_bounded(flags: Seq<bool>)
    ensures
        count(flags) <= flags.len(),
    decreases flags.len(),
{
    if flags.len() > 0 {
        lemma_count_bounded(flags.drop_last());
    }
}

/// A fixed-size pool of identical actors with round-robin dispatch.
///
/// All workers run concurrently. Messages are distributed one at a time in
/// round-robin order. Use [`ActorPool::shutdown_all`] to stop every worker at
/// once.
#[verifier::reject_recursive_types(Msg)]
pub struct ActorPool<Msg: Send + 'static> {
    workers: Vec<ActorRef<Msg>>,
    turnstile: Turnstile<Msg>,
}

impl<Msg: Send + 'static> ActorPool<Msg> {
    #[verifier::type_invariant]
    spec fn inv(&self) -> bool {
        self.workers@.len() > 0
    }

    /// The workers, in order.
    pub closed spec fn members(self) -> Seq<ActorRef<Msg>> {
        self.workers@
    }

    /// The rotation began like this.
    pub closed spec fn begins_at(self, r: Rotation) -> bool {
        exists|t: Turns<Msg>| #[trigger]
            self.turnstile.began(t) && t.taken() == 0 && t.rotation() == r
    }

    /// A message found the rotation like this and drew the next ticket.
    pub closed spec fn turned(self, r: Rotation) -> bool {
        exists|before: Turns<Msg>, after: Turns<Msg>| #[trigger]
            self.turnstile.passed(before, after) && before.rotation() == r
    }

    /// A message found the turns like this, took its own, and left them like that.
    pub closed spec fn passed(self, before: Turns<Msg>, after: Turns<Msg>) -> bool {
        self.turnstile.passed(before, after)
    }

    /// The message took its turn, and only its own, when the turns stood at `before`;
    /// after it they stood at `after`. If it came after `k` others, it was offered to
    /// the worker `k % size`; `r` is what came of it.
    pub open spec fn routed(
        self,
        msg: Msg,
        r: Result<(), TellError>,
        before: Turns<Msg>,
        after: Turns<Msg>,
    ) -> bool {
        let k = before.taken() % (usize::MAX + 1) as nat;
        &&& self.passed(before, after)
        &&& after.taken() == before.taken() + 1
        &&& self.members()[(k % self.members().len()) as int].link().told(msg, r)
    }

    /// The message drew a ticket and was offered to the worker that it is for;
    /// `r` is what came of it.
    pub open spec fn dispatched(self, msg: Msg, r: Result<(), TellError>) -> bool {
        exists|rotation: Rotation| #[trigger]
            self.turned(rotation) && self.members()[rotation.slot(
                self.members().len() as int,
            )].link().told(msg, r)
    }

    /// Each worker was asked whether it is alive, and these are the answers. Nobody
    /// is found dead who was not told to stop.
    pub open spec fn alive_read(self, alive: Seq<bool>) -> bool {
        &&& alive.len() == self.members().len()
        &&& forall|i: int|
            0 <= i < alive.len() ==> crate::outside::cancel_read(
                (#[trigger] self.members()[i]).token(),
                !alive[i],
            ) && (!alive[i] ==> crate::cascade::told_to_stop(self.members()[i].token()))
    }

    /// A pool of `size` workers, each made by a call of `factory` of its own: the
    /// factory is told which worker it makes.
    pub fn new<F: Fn(usize) -> ActorRef<Msg>>(size: usize, factory: F) -> (pool: ActorPool<Msg>)
        requires
            size > 0,
            forall|i: usize| i < size ==> #[trigger] factory.requires((i,)),
        ensures
            pool.members().len() == size,
            forall|i: usize|
                i < size ==> factory.ensures((i,), #[trigger] pool.members()[i as int]),
            pool.begins_at(Rotation { next: 0 }),
    {
        let mut workers: Vec<ActorRef<Msg>> = Vec::new();
        for i in 0..size
            invariant
                forall|i: usize| i < size ==> #[trigger] factory.requires((i,)),
                workers@.len() == i,
                forall|j: usize|
                    j < i ==> factory.ensures((j,), #[trigger] workers@[j as int]),
        {
            workers.push(factory(i));
        }
        let turnstile = Turnstile::new(Opening(()));
        let pool = ActorPool { workers, turnstile };
        proof {
            let t = choose|t: Turns<Msg>| #[trigger]
                turnstile.began(t) && t.taken() == 0 && t.rotation() == (Rotation { next: 0 });
            assert(pool.turnstile.began(t));
        }
        pool
    }

    /// Send a message to the next worker in round-robin order.
    pub fn tell(&self, msg: Msg) -> (r: Result<(), TellError>)
        ensures
            self.dispatched(msg, r),
            exists|before: Turns<Msg>, after: Turns<Msg>| #[trigger]
                self.routed(msg, r, before, after),
    {
        proof {
            use_type_invariant(self);
        }
        let routed = self.turnstile.pass(msg, self.workers.len());
        let ghost worker = routed.worker();
        let r = routed.hand_over(&self.workers);
        proof {
            let (before, after) = choose|before: Turns<Msg>, after: Turns<Msg>| #[trigger]
                self.turnstile.passed(before, after) && worker == (before.taken() % (usize::MAX
                    + 1) as nat) % self.workers@.len() && worker == before.rotation().slot(
                    self.workers@.len() as int,
                );
            assert(self.turned(before.rotation()));
            assert(self.routed(msg, r, before, after));
        }
        r
    }

    /// Shut every worker down.
    pub fn shutdown_all(&self)
        ensures
            forall|i: int|
                0 <= i < self.members().len() ==> crate::outside::cancelled(
                    (#[trigger] self.members()[i]).token(),
                ),
    {
        for i in 0..self.workers.len()
            invariant
                forall|j: int|
                    0 <= j < i ==> crate::outside::cancelled(
                        (#[trigger] self.workers@[j]).token(),
                    ),
        {
            self.workers[i].shutdown();
        }
    }

    /// Number of workers.
    pub fn size(&self) -> (n: usize)
        ensures
            n == self.members().len(),
            n > 0,
    {
        proof {
            use_type_invariant(self);
        }
        self.workers.len()
    }

    /// The workers, in order.
    pub fn workers(&self) -> (w: &[ActorRef<Msg>])
        ensures
            w@ == self.members(),
    {
        self.workers.as_slice()
    }

    /// Number of workers still alive: those that have not been shut down.
    pub fn alive_count(&self) -> (n: usize)
        ensures
            exists|alive: Seq<bool>| #[trigger] self.alive_read(alive) && n == count(alive),
    {
        let mut n: usize = 0;
        let ghost mut alive: Seq<bool> = seq![];
        for i in 0..self.workers.len()
            invariant
                alive.len() == i,
                n == count(alive),
                n <= i,
                forall|j: int|
                    0 <= j < i ==> crate::outside::cancel_read(
                        (#[trigger] self.workers@[j]).token(),
                        !alive[j],
                    ) && (!alive[j] ==> crate::cascade::told_to_stop(self.workers@[j].token())),
        {
            let up = self.workers[i].is_alive();
            if up {
                n = n + 1;
            }
            proof {
                let before = alive;
                alive = alive.push(up);
                assert(alive.drop_last() =~= before);
            }
        }
        assert(self.alive_read(alive));
        n
    }

    /// Number of workers that have been shut down.
    pub fn dead_workers(&self) -> (n: usize)
        ensures
            exists|alive: Seq<bool>| #[trigger]
                self.alive_read(alive) && n == self.members().len() - count(alive),
    {
        let up = self.alive_count();
        proof {
            let alive = choose|alive: Seq<bool>| #[trigger]
                self.alive_read(alive) && up == count(alive);
            lemma_count_bounded(alive);
        }
        self.workers.len() - up
    }
}

// ---------------------------------------------------------------------------
// Laws
// ---------------------------------------------------------------------------

/// How many of the `n` tickets from `start` on are for the worker `w` of `size`.
pub open spec fn share(start: nat, n: nat, size: nat, w: nat) -> nat
    decreases n,
{
    if n == 0 {
        0
    } else {
        share(start, (n - 1) as nat, size, w) + if (start + n - 1) % size as int == w {
            1nat
        } else {
            0nat
        }
    }
}

/// How many of the tickets below `x` are for the worker `w` of `size`.
spec fn below(x: nat, size: nat, w: nat) -> int {
    (x + size - 1 - w) / size as int
}

proof fn lemma_below_step(x: nat, size: nat, w: nat)
    requires
        w < size,
    ensures
        below(x + 1, size, w) == below(x, size, w) + if x % size == w {
            1int
        } else {
            0int
        },
{
    let d = size as int;
    let q = x as int / d;
    let r = x as int % d;
    vstd::arithmetic::div_mod::lemma_fundamental_div_mod(x as int, d);
    vstd::arithmetic::div_mod::lemma_mod_bound(x as int, d);
    assert((q + 1) * d == q * d + d && (q + 2) * d == q * d + 2 * d && d * q == q * d)
        by (nonlinear_arith);
    let a = x + d - 1 - w;
    if r > w {
        vstd::arithmetic::div_mod::lemma_fundamental_div_mod_converse(a, d, q + 1, r - 1 - w);
    } else {
        vstd::arithmetic::div_mod::lemma_fundamental_div_mod_converse(a, d, q, r + d - 1 - w);
    }
    let b = x + 1 + d - 1 - w;
    if r >= w {
        vstd::arithmetic::div_mod::lemma_fundamental_div_mod_converse(b, d, q + 1, r - w);
    } else {
        vstd::arithmetic::div_mod::lemma_fundamental_div_mod_converse(b, d, q, r + d - w);
    }
}

proof fn lemma_share_is_difference(start: nat, n: nat, size: nat, w: nat)
    requires
        w < size,
    ensures
        share(start, n, size, w) == below(start + n, size, w) - below(start, size, w),
    decreases n,
{
    if n > 0 {
        lemma_share_is_difference(start, (n - 1) as nat, size, w);
        lemma_below_step((start + n - 1) as nat, size, w);
    }
}

/// The rota is fair: of any `rounds * size` tickets drawn one after the other,
/// wherever they begin, exactly `rounds` are for each worker. Tickets that start
/// over at zero in between are left out: the round then going on may be cut
/// short.
pub proof fn law_pool_distributes_evenly(start: nat, rounds: nat, size: nat, w: nat)
    requires
        w < size,
        start + rounds * size <= usize::MAX + 1,
    ensures
        share(start, rounds * size, size, w) == rounds,
{
    lemma_share_is_difference(start, rounds * size, size, w);
    let a = start + size - 1 - w;
    vstd::arithmetic::div_mod::lemma_hoist_over_denominator(a, rounds as int, size);
}

/// The rotation after `k` tickets have been drawn.
pub open spec fn after_draws(r: Rotation, k: nat) -> Rotation
    decreases k,
{
    if k == 0 {
        r
    } else {
        after_draws(r, (k - 1) as nat).drawn()
    }
}

/// Round robin: in a pool of `size` workers, the message that comes after `k`
/// others goes to the worker `k % size`, whatever came of the others, and the next
/// one to the worker after that. Tickets that have started over at zero are left
/// out.
pub proof fn law_pool_routes_round_robin(size: int, k: nat)
    requires
        size > 0,
        k < usize::MAX,
    ensures
        after_draws(Rotation { next: 0 }, k).slot(size) == k as int % size,
        after_draws(Rotation { next: 0 }, k).drawn().slot(size) == (k + 1) as int % size,
{
    lemma_after_draws(k);
}

/// Every worker in turn: if `turns` are what a pool's messages found one after the
/// other, from the first message on and with nobody in between, then the message
/// that came after `k` others was offered to the worker `k % size`, and so each of
/// `size` messages in a row to another worker. Tickets that have started over at
/// zero are left out.
pub proof fn law_messages_go_round<Msg: Send + 'static>(
    pool: ActorPool<Msg>,
    msgs: Seq<Msg>,
    results: Seq<Result<(), TellError>>,
    turns: Seq<Turns<Msg>>,
    k: int,
)
    requires
        0 <= k < msgs.len() <= usize::MAX,
        results.len() == msgs.len(),
        turns.len() == msgs.len() + 1,
        turns[0].taken() == 0,
        forall|i: int|
            0 <= i < msgs.len() ==> pool.routed(
                #[trigger] msgs[i],
                results[i],
                turns[i],
                turns[i + 1],
            ),
    ensures
        turns[k].taken() == k,
        pool.members()[k % pool.members().len() as int].link().told(msgs[k], results[k]),
    decreases k,
{
    if k > 0 {
        law_messages_go_round(pool, msgs, results, turns, k - 1);
        assert(pool.routed(msgs[k - 1], results[k - 1], turns[k - 1], turns[k]));
    }
    assert(pool.routed(msgs[k], results[k], turns[k], turns[k + 1]));
    vstd::arithmetic::div_mod::lemma_small_mod(k as nat, (usize::MAX + 1) as nat);
}

proof fn lemma_after_draws(k: nat)
    requires
        k <= usize::MAX,
    ensures
        after_draws(Rotation { next: 0 }, k) == (Rotation { next: k as usize }),
    decreases k,
{
    if k > 0 {
        lemma_after_draws((k - 1) as nat);
    }
}

/// Whoever is not alive is dead: as long as nobody stops in between, the two
/// counts add up to the size of the pool.
pub proof fn law_alive_and_dead_make_the_pool(alive: Seq<bool>)
    ensures
        count(alive) + count(alive.map_values(|b: bool| !b)) == alive.len(),
    decreases alive.len(),
{
    if alive.len() > 0 {
        law_alive_and_dead_make_the_pool(alive.drop_last());
        assert(alive.map_values(|b: bool| !b).drop_last() =~= alive.drop_last().map_values(
            |b: bool| !b,
        ));
    }
}

} // verus!
