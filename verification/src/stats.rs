//! Activity counters of one actor and their point-in-time view.

use std::sync::Arc;
use std::time::{Duration, Instant};
use vstd::prelude::*;
use vstd::rwlock::{RwLock, RwLockPredicate};

use crate::incarnation::LoopEvent;
use crate::reach::Hand;

verus! {

/// Nanoseconds in one millisecond.
pub const NANOS_PER_MILLI: u128 = 1_000_000;

/// Nanoseconds in one second.
pub const NANOS_PER_SEC: u128 = 1_000_000_000;

/// The most nanoseconds that a duration can hold.
pub const MAX_NANOS: u128 = 18_446_744_073_709_551_615_999_999_999;

/// Whole milliseconds in `nanos` nanoseconds, kept to 64 bits.
pub open spec fn whole_millis(nanos: nat) -> nat {
    (nanos / 1_000_000) % 0x1_0000_0000_0000_0000
}

/// Whole milliseconds in a duration.
pub fn millis_of(d: Duration) -> (ms: u64)
    ensures
        ms == whole_millis(crate::outside::nanos(d) as nat),
{
    let ms: u128 = d.as_nanos() / NANOS_PER_MILLI;
    assert(ms as u64 == ms % 0x1_0000_0000_0000_0000u128) by (bit_vector);
    #[verifier::truncate]
    let kept = ms as u64;
    kept
}

/// The duration of so many nanoseconds.
pub fn duration_of(nanos: u128) -> (d: Duration)
    requires
        nanos <= MAX_NANOS,
    ensures
        crate::outside::nanos(d) == nanos,
{
    let secs: u128 = nanos / NANOS_PER_SEC;
    let subsec: u128 = nanos % NANOS_PER_SEC;
    Duration::new(secs as u64, subsec as u32)
}

/// A point in time: `offset_ms` milliseconds after `base`.
#[derive(Debug, Clone, Copy)]
pub struct Moment {
    pub base: Instant,
    pub offset_ms: u64,
}

impl Moment {
    /// Nanoseconds between this moment and the instant that lies `since_base`
    /// nanoseconds after its base; zero if that instant comes first.
    pub open spec fn elapsed_by(self, since_base: nat) -> nat {
        if since_base >= self.offset_ms * 1_000_000 {
            (since_base - self.offset_ms * 1_000_000) as nat
        } else {
            0
        }
    }

    /// How much time lies between this moment and the instant `since_base` after
    /// its base.
    pub fn elapsed_at(&self, since_base: Duration) -> (d: Duration)
        ensures
            crate::outside::nanos(d) == self.elapsed_by(
                crate::outside::nanos(since_base) as nat,
            ),
    {
        let offset: u128 = self.offset_ms as u128 * NANOS_PER_MILLI;
        let since: u128 = since_base.as_nanos();
        if since >= offset {
            duration_of(since - offset)
        } else {
            duration_of(0)
        }
    }
}

/// The counters themselves.
pub struct Activity {
    /// Messages dequeued for handling; starts over at zero after `u64::MAX`.
    pub message_count: u64,
    /// Milliseconds since the actor was spawned at which the most recently
    /// handled message started. `0` means no message has been handled yet.
    pub last_activity_ms: u64,
    /// `true` while a message is being handled.
    pub busy: bool,
}

impl Activity {
    /// An actor that has never handled a message has counted none and is not
    /// busy.
    pub open spec fn wf(self) -> bool {
        self.last_activity_ms == 0 ==> self.message_count == 0 && !self.busy
    }

    /// `true` once a message has been handled.
    pub open spec fn has_handled(self) -> bool {
        self.last_activity_ms != 0
    }

    /// The counters after a message began at `elapsed_ms`.
    pub open spec fn started(self, elapsed_ms: u64) -> Activity {
        Activity {
            message_count: crate::id::successor(self.message_count),
            last_activity_ms: if elapsed_ms == 0 {
                1
            } else {
                elapsed_ms
            },
            busy: true,
        }
    }

    /// The counters after the message in hand is done.
    pub open spec fn finished(self) -> Activity {
        Activity { busy: false, ..self }
    }

    /// Counters of an actor that has just been spawned.
    pub fn new() -> (a: Activity)
        ensures
            a.wf(),
            a.message_count == 0,
            !a.has_handled(),
            !a.busy,
    {
        Activity { message_count: 0, last_activity_ms: 0, busy: false }
    }

    /// Record that a message has been dequeued and is about to be handled.
    ///
    /// Counting here, rather than after handling, keeps `message_count`
    /// consistent with a reply that is sent from inside the handler. A message
    /// that starts in the first millisecond counts as one that started at `1`,
    /// so the actor is distinguishable from one that never handled anything.
    pub fn record_start(&mut self, elapsed_ms: u64)
        ensures
            *final(self) == old(self).started(elapsed_ms),
            final(self).wf(),
    {
        self.message_count = self.message_count.wrapping_add(1);
        self.last_activity_ms = if elapsed_ms == 0 {
            1
        } else {
            elapsed_ms
        };
        self.busy = true;
    }

    /// Record that the actor finished handling the current message.
    pub fn record_finish(&mut self)
        ensures
            *final(self) == old(self).finished(),
            old(self).wf() ==> final(self).wf(),
    {
        self.busy = false;
    }

    /// Build a point-in-time view. `base` is the instant from which
    /// `last_activity_ms` counts; `mailbox_depth` is read by the caller from the
    /// live channel.
    pub fn snapshot(&self, base: Instant, mailbox_depth: usize) -> (s: ActorStatsSnapshot)
        ensures
            s == self.seen(base, mailbox_depth),
    {
        let last_activity = if self.last_activity_ms != 0 {
            Some(Moment { base, offset_ms: self.last_activity_ms })
        } else {
            None
        };
        ActorStatsSnapshot {
            message_count: self.message_count,
            mailbox_depth,
            last_activity,
            is_busy: self.busy,
        }
    }

    /// What a snapshot of these counters shows.
    pub open spec fn seen(self, base: Instant, mailbox_depth: usize) -> ActorStatsSnapshot {
        ActorStatsSnapshot {
            message_count: self.message_count,
            mailbox_depth,
            last_activity: if self.has_handled() {
                Some(Moment { base, offset_ms: self.last_activity_ms })
            } else {
                None
            },
            is_busy: self.busy,
        }
    }
}

/// What every reader of shared counters may rely on.
pub struct ActivityInv;

impl RwLockPredicate<Activity> for ActivityInv {
    open spec fn inv(self, a: Activity) -> bool {
        a.wf()
    }
}

/// Activity counters shared between an actor's receive loop and the handles
/// that observe it.
///
/// One instance is created per spawned actor and shared through an `Arc`. The
/// receive loop is the only writer; handles only ever read, via
/// [`ActorStats::snapshot`].
pub struct ActorStats {
    base: Instant,
    activity: Arc<RwLock<Activity, ActivityInv>>,
}

impl ActorStats {
    /// The instant from which activity is measured.
    pub closed spec fn base(self) -> Instant {
        self.base
    }

    /// The counters began like this.
    pub closed spec fn began_as(self, a: Activity) -> bool {
        crate::shared::began(*self.activity, a)
    }

    /// The counters were seen like this.
    pub closed spec fn seen_as(self, a: Activity) -> bool {
        crate::shared::found(*self.activity, a)
    }

    /// The counters went from `before` to `after` in one step.
    pub open spec fn went(self, before: Activity, after: Activity) -> bool {
        crate::shared::replaced(self.activity_lock(), before, after)
    }

    /// The lock around the counters.
    pub closed spec fn activity_lock(self) -> RwLock<Activity, ActivityInv> {
        *self.activity
    }

    /// A hand on the counters alone.
    pub(crate) fn hand(&self) -> (h: Hand<Activity, ActivityInv>)
        ensures
            h.lock() == self.activity_lock(),
    {
        Hand::new(self.activity.clone())
    }

    /// The counters are those of an actor that is being spawned.
    pub open spec fn fresh(self) -> bool {
        &&& crate::outside::clock_read(self.base())
        &&& self.began_as(newborn())
    }

    /// A message was recorded to start, at what the clock read.
    pub open spec fn start_recorded(self) -> bool {
        exists|a: Activity, d: Duration| #[trigger]
            crate::outside::elapsed_read(self.base(), d) && #[trigger] self.went(
                a,
                a.started(whole_millis(crate::outside::nanos(d) as nat) as u64),
            )
    }

    /// The message in hand was recorded to be done.
    pub open spec fn finish_recorded(self) -> bool {
        exists|a: Activity| #[trigger] self.went(a, a.finished())
    }

    /// The view shows the counters as they were seen, and this mailbox depth.
    pub open spec fn reports(self, mailbox_depth: usize, s: ActorStatsSnapshot) -> bool {
        exists|a: Activity| #[trigger]
            self.seen_as(a) && a.wf() && s == a.seen(self.base(), mailbox_depth)
    }

    /// Fresh counters, measured from now on.
    pub fn new() -> (stats: ActorStats)
        ensures
            stats.fresh(),
    {
        let activity = RwLock::new(Activity::new(), Ghost(ActivityInv));
        ActorStats { base: Instant::now(), activity: Arc::new(activity) }
    }

    /// Record that a message is about to be handled: [`Activity::record_start`]
    /// at the current reading of the clock.
    pub fn record_start(&self)
        ensures
            self.start_recorded(),
    {
        let elapsed = self.base.elapsed();
        let (activity, lock) = self.activity.acquire_write();
        let ghost before = activity;
        let mut activity = activity;
        let elapsed_ms = millis_of(elapsed);
        activity.record_start(elapsed_ms);
        lock.release_write(activity);
        proof {
            assert(crate::outside::elapsed_read(self.base(), elapsed));
            assert(self.went(
                before,
                before.started(whole_millis(crate::outside::nanos(elapsed) as nat) as u64),
            ));
        }
    }

    /// Record that the message in hand is done: [`Activity::record_finish`].
    pub fn record_finish(&self)
        ensures
            self.finish_recorded(),
    {
        let (activity, lock) = self.activity.acquire_write();
        let ghost before = activity;
        let mut activity = activity;
        activity.record_finish();
        lock.release_write(activity);
        assert(self.went(before, before.finished()));
    }

    /// Point-in-time view: [`Activity::snapshot`] of the counters as they are.
    pub fn snapshot(&self, mailbox_depth: usize) -> (s: ActorStatsSnapshot)
        ensures
            self.reports(mailbox_depth, s),
            s.consistent(self.base()),
    {
        let lock = self.activity.acquire_read();
        let activity = lock.borrow();
        assert(self.seen_as(*activity));
        let s = activity.snapshot(self.base, mailbox_depth);
        lock.release_read();
        s
    }
}

impl Default for ActorStats {
    fn default() -> (stats: ActorStats)
        ensures
            stats.fresh(),
    {
        ActorStats::new()
    }
}

/// Point-in-time view of an actor's activity.
#[derive(Debug, Clone, Copy)]
pub struct ActorStatsSnapshot {
    /// Total messages dequeued for handling since the actor was spawned.
    pub message_count: u64,
    /// Approximate messages currently queued in the mailbox. Does not count a
    /// message actively being handled (it has already left the channel).
    pub mailbox_depth: usize,
    /// When the most recent message began handling, or `None` if the actor has
    /// not handled any message yet.
    pub last_activity: Option<Moment>,
    /// `true` if the actor is currently handling a message.
    pub is_busy: bool,
}

impl ActorStatsSnapshot {
    /// What holds of every view of an actor whose activity counts from `base`:
    /// without a last activity no message has been counted and the actor is not
    /// busy, and the last activity never reads zero.
    pub open spec fn consistent(self, base: Instant) -> bool {
        match self.last_activity {
            None => self.message_count == 0 && !self.is_busy,
            Some(t) => t.base == base && t.offset_ms != 0,
        }
    }

    /// Nanoseconds since the last message was handled, seen from the instant
    /// `since_base` nanoseconds after the base of the last activity; `None` if
    /// no message has been handled.
    pub open spec fn idle_by(self, since_base: nat) -> Option<nat> {
        match self.last_activity {
            Some(t) => Some(t.elapsed_by(since_base)),
            None => None,
        }
    }

    /// `idle` is how long the actor had been idle when the clock was read; `None`
    /// if it has been idle since it was spawned.
    pub open spec fn idle_read(self, idle: Option<Duration>) -> bool {
        match self.last_activity {
            Some(t) => exists|since_base: Duration| #[trigger]
                crate::outside::elapsed_read(t.base, since_base) && self.idle_as_of(
                    since_base,
                    idle,
                ),
            None => idle is None,
        }
    }

    /// `idle` is how long the actor has been idle at the instant `since_base`
    /// after the base of its last activity.
    pub open spec fn idle_as_of(self, since_base: Duration, idle: Option<Duration>) -> bool {
        match (self.idle_by(crate::outside::nanos(since_base) as nat), idle) {
            (Some(n), Some(d)) => crate::outside::nanos(d) == n,
            (None, None) => true,
            _ => false,
        }
    }

    /// How long the actor has been idle at the instant `since_base` after the
    /// base of its last activity; `None` if it has been idle since it was spawned.
    pub fn idle_at(&self, since_base: Duration) -> (idle: Option<Duration>)
        ensures
            self.idle_as_of(since_base, idle),
    {
        match self.last_activity {
            Some(t) => Some(t.elapsed_at(since_base)),
            None => None,
        }
    }

    /// Time elapsed since the last message was handled, or `None` if the actor
    /// has been idle since it was spawned.
    ///
    /// How long it has been, the clock decides: this is
    /// [`ActorStatsSnapshot::idle_at`] at its current reading.
    pub fn idle_for(&self) -> (idle: Option<Duration>)
        ensures
            idle is Some <==> self.last_activity is Some,
            self.idle_read(idle),
    {
        match self.last_activity {
            Some(t) => {
                let since_base = t.base.elapsed();
                assert(crate::outside::elapsed_read(t.base, since_base));
                self.idle_at(since_base)
            },
            None => None,
        }
    }
}

// ---------------------------------------------------------------------------
// Laws
// ---------------------------------------------------------------------------

/// One thing recorded of an actor.
pub enum Record {
    /// A message began, so many milliseconds after the actor was spawned.
    Start(u64),
    /// The message in hand was done.
    Finish,
}

/// The counters after these records, one after the other.
pub open spec fn after_records(a: Activity, records: Seq<Record>) -> Activity
    decreases records.len(),
{
    if records.len() == 0 {
        a
    } else {
        let before = after_records(a, records.drop_last());
        match records.last() {
            Record::Start(ms) => before.started(ms),
            Record::Finish => before.finished(),
        }
    }
}

/// How many messages began.
pub open spec fn starts(records: Seq<Record>) -> nat
    decreases records.len(),
{
    if records.len() == 0 {
        0
    } else {
        starts(records.drop_last()) + if records.last() is Start {
            1nat
        } else {
            0nat
        }
    }
}

/// When the last message began.
pub open spec fn last_start(records: Seq<Record>) -> Option<u64>
    decreases records.len(),
{
    if records.len() == 0 {
        None
    } else {
        match records.last() {
            Record::Start(ms) => Some(ms),
            Record::Finish => last_start(records.drop_last()),
        }
    }
}

/// The counters of an actor that has just been spawned.
pub open spec fn newborn() -> Activity {
    Activity { message_count: 0, last_activity_ms: 0, busy: false }
}

/// Counting is exact, whatever is recorded: the count is the number of messages
/// that began, the actor is busy exactly if a start was recorded last, and it was
/// last active when the last message began, the first millisecond counting as the
/// second.
pub proof fn law_every_message_is_counted(records: Seq<Record>)
    requires
        starts(records) <= u64::MAX,
    ensures
        ({
            let a = after_records(newborn(), records);
            &&& a.message_count == starts(records)
            &&& a.busy <==> records.len() > 0 && records.last() is Start
            &&& a.last_activity_ms == match last_start(records) {
                None => 0,
                Some(ms) => if ms == 0 {
                    1
                } else {
                    ms
                },
            }
            &&& a.wf()
        }),
    decreases records.len(),
{
    if records.len() > 0 {
        law_every_message_is_counted(records.drop_last());
    }
}

/// What a loop records that meets these events one after the other, each message
/// starting at the time that stands at the place of its event: a start when a
/// message has left the mailbox, a finish when it is done.
pub open spec fn recorded<M>(events: Seq<LoopEvent<M>>, times: Seq<u64>) -> Seq<Record>
    recommends
        events.len() <= times.len(),
    decreases events.len(),
{
    if events.len() == 0 {
        seq![]
    } else {
        let before = recorded(events.drop_last(), times);
        if events.last() is Message {
            before.push(Record::Start(times[events.len() - 1])).push(Record::Finish)
        } else {
            before
        }
    }
}

proof fn lemma_messages_last<M>(events: Seq<LoopEvent<M>>)
    requires
        events.len() > 0,
    ensures
        crate::incarnation::messages(events).len() == crate::incarnation::messages(
            events.drop_last(),
        ).len() + if events.last() is Message {
            1nat
        } else {
            0nat
        },
    decreases events.len(),
{
    if events.len() > 1 {
        let rest = events.drop_first();
        lemma_messages_last(rest);
        assert(rest.drop_last() =~= events.drop_last().drop_first());
    } else {
        assert(events.drop_last() =~= seq![]);
        assert(events.drop_first() =~= seq![]);
        reveal_with_fuel(crate::incarnation::messages, 2);
    }
}

/// As many messages are recorded as started as have left the mailbox.
pub proof fn law_every_message_taken_is_recorded<M>(events: Seq<LoopEvent<M>>, times: Seq<u64>)
    ensures
        starts(recorded(events, times)) == crate::incarnation::messages(events).len(),
    decreases events.len(),
{
    if events.len() > 0 {
        law_every_message_taken_is_recorded(events.drop_last(), times);
        lemma_messages_last(events);
        let before = recorded(events.drop_last(), times);
        if events.last() is Message {
            let started = before.push(Record::Start(times[events.len() - 1]));
            assert(started.drop_last() =~= before);
            assert(starts(started) == starts(before) + 1);
            assert(started.push(Record::Finish).drop_last() =~= started);
            assert(starts(started.push(Record::Finish)) == starts(started));
        }
    }
}

/// Every accepted message is either counted or waits. A mailbox has `accepted` some
/// messages and handed out those that the loop met, so the others wait in it; the
/// loop is still running. Then the counters together with the mailbox depth show as
/// many messages as were accepted. A message in hand is counted and does not wait.
pub proof fn law_accepted_messages_are_counted_or_wait<M>(
    accepted: Seq<M>,
    events: Seq<LoopEvent<M>>,
    times: Seq<u64>,
    in_hand: bool,
    base: Instant,
    mailbox_depth: usize,
)
    requires
        accepted.len() <= u64::MAX,
        !crate::incarnation::stopped(events),
        crate::incarnation::messages(events).is_prefix_of(accepted),
        mailbox_depth == accepted.len() - crate::incarnation::messages(events).len(),
        in_hand ==> events.len() > 0 && events.last() is Message,
    ensures
        ({
            let all = recorded(events, times);
            let records = if in_hand {
                all.drop_last()
            } else {
                all
            };
            let s = after_records(newborn(), records).seen(base, mailbox_depth);
            &&& s.message_count + s.mailbox_depth == accepted.len()
            &&& s.message_count == crate::incarnation::handled(events).len()
            &&& in_hand ==> s.is_busy
            &&& !in_hand ==> !s.is_busy
        }),
{
    crate::incarnation::law_no_phantom_delivery(events);
    law_every_message_taken_is_recorded(events, times);
    let all = recorded(events, times);
    lemma_recorded_ends(events, times);
    law_every_message_is_counted(all);
    if in_hand {
        let before = recorded(events.drop_last(), times);
        let started = before.push(Record::Start(times[events.len() - 1]));
        assert(all.drop_last() =~= started);
        assert(starts(all) == starts(started));
        law_every_message_is_counted(started);
    }
}

proof fn lemma_recorded_ends<M>(events: Seq<LoopEvent<M>>, times: Seq<u64>)
    ensures
        recorded(events, times).len() == 0 || recorded(events, times).last() is Finish,
    decreases events.len(),
{
    if events.len() > 0 {
        lemma_recorded_ends(events.drop_last(), times);
    }
}

/// An actor is busy exactly between the start and the finish of a message, and a
/// message counts from its start on.
pub proof fn law_busy_between_start_and_finish(a: Activity, elapsed_ms: u64)
    requires
        a.message_count < u64::MAX,
    ensures
        a.started(elapsed_ms).busy,
        a.started(elapsed_ms).message_count == a.message_count + 1,
        a.started(elapsed_ms).has_handled(),
        !a.started(elapsed_ms).finished().busy,
        a.started(elapsed_ms).finished().message_count == a.message_count + 1,
        a.started(elapsed_ms).finished().last_activity_ms == a.started(elapsed_ms).last_activity_ms,
{
}

/// Finishing twice is finishing once, so a busy flag may be cleared again at any
/// time.
pub proof fn law_finish_is_idempotent(a: Activity)
    ensures
        a.finished().finished() == a.finished(),
        !a.busy ==> a.finished() == a,
{
}

/// Idle time never shrinks while no new message begins.
pub proof fn law_idle_time_grows(s: ActorStatsSnapshot, earlier: nat, later: nat)
    requires
        earlier <= later,
    ensures
        s.idle_by(earlier) matches Some(a) ==> s.idle_by(later) matches Some(b) && a <= b,
        s.idle_by(earlier) is None <==> s.idle_by(later) is None,
{
}

/// What is said of shared counters was found and left under their lock: a start
/// counts one more message, is remembered with the clock's reading, and makes the
/// actor busy; a finish makes it idle, and changes nothing else.
pub proof fn law_counters_change_under_their_lock(stats: ActorStats, seen: Activity)
    ensures
        stats.began_as(seen) ==> crate::shared::began(stats.activity_lock(), seen),
        stats.seen_as(seen) ==> crate::shared::found(stats.activity_lock(), seen),
        stats.finish_recorded() ==> exists|a: Activity, b: Activity| #[trigger]
            crate::shared::replaced(stats.activity_lock(), a, b) && !b.busy && b.message_count
                == a.message_count && b.last_activity_ms == a.last_activity_ms,
        stats.start_recorded() ==> exists|a: Activity, b: Activity, d: Duration| #[trigger]
            crate::shared::replaced(stats.activity_lock(), a, b) && #[trigger]
            crate::outside::elapsed_read(stats.base(), d) && b.busy && (a.message_count
                < u64::MAX ==> b.message_count == a.message_count + 1) && b.last_activity_ms > 0
                && (1_000_000 <= crate::outside::nanos(d) < 18_446_744_073_709_551_616 * 1_000_000
                ==> b.last_activity_ms * 1_000_000 <= crate::outside::nanos(d) < (
            b.last_activity_ms + 1) * 1_000_000),
{
    if stats.finish_recorded() {
        let a = choose|a: Activity| #[trigger] stats.went(a, a.finished());
        assert(crate::shared::replaced(stats.activity_lock(), a, a.finished()));
    }
    if stats.start_recorded() {
        let (a, d) = choose|a: Activity, d: Duration| #[trigger]
            crate::outside::elapsed_read(stats.base(), d) && #[trigger] stats.went(
                a,
                a.started(whole_millis(crate::outside::nanos(d) as nat) as u64),
            );
        let n = crate::outside::nanos(d) as nat;
        let b = a.started(whole_millis(n) as u64);
        if 1_000_000 <= n < 18_446_744_073_709_551_616 * 1_000_000 {
            crate::laws::law_millis_are_whole(n, n);
            vstd::arithmetic::div_mod::lemma_small_mod(
                n / 1_000_000,
                18_446_744_073_709_551_616,
            );
        }
        assert(crate::shared::replaced(stats.activity_lock(), a, b));
    }
}

} // verus!
