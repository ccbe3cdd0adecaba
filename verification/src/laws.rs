//! What callers may rely on, part by part, said without the words in which the
//! parts say it themselves.

use std::time::{Duration, Instant};
use tokio_util::sync::CancellationToken;
use vstd::prelude::*;

use crate::context::Context;
use crate::event::EventView;
use crate::handle::{ActorHandle, AskError, TellError};
use crate::id::ActorId;
use crate::incarnation::{LoopAction, LoopEvent};
use crate::lifecycle::PanicPayload;
use crate::outside::SendFailure;
use crate::pool::ActorPool;
use crate::registry::Observation;
use crate::stats::{Activity, ActorStatsSnapshot};
use crate::status::{ActorNode, ActorStatus, Reading, StatusMsg};
use crate::status_actor::StatusAnswer;
use crate::supervisor::{ActorSystem, Enrollment, SpawnSite};
use crate::tree::{Node, Tree};

verus! {

broadcast use crate::id::lemma_id_is_its_number;

// ---------------------------------------------------------------------------
// Time
// ---------------------------------------------------------------------------

/// Milliseconds are counted in full and rounded down, and more time is never fewer
/// milliseconds, as long as their number fits 64 bits.
pub proof fn law_millis_are_whole(nanos: nat, more: nat)
    requires
        nanos <= more,
        more < 18_446_744_073_709_551_616 * 1_000_000,
    ensures
        crate::stats::whole_millis(nanos) * 1_000_000 <= nanos,
        nanos < (crate::stats::whole_millis(nanos) + 1) * 1_000_000,
        crate::stats::whole_millis(nanos) <= crate::stats::whole_millis(more),
{
    vstd::arithmetic::div_mod::lemma_small_mod(nanos / 1_000_000, 18_446_744_073_709_551_616);
    vstd::arithmetic::div_mod::lemma_small_mod(more / 1_000_000, 18_446_744_073_709_551_616);
}

/// An actor has been idle for the time that has passed since its last message
/// began; for no time at all if the clock seems to have gone back; and for no known
/// time if it has never handled a message.
pub proof fn law_idle_is_the_time_since_the_last_message(
    s: ActorStatsSnapshot,
    since_base: Duration,
    idle: Option<Duration>,
)
    requires
        s.idle_as_of(since_base, idle),
    ensures
        idle is Some <==> s.last_activity is Some,
        match (s.last_activity, idle) {
            (Some(t), Some(d)) => {
                let start = t.offset_ms * 1_000_000;
                let now = crate::outside::nanos(since_base);
                &&& now >= start ==> start + crate::outside::nanos(d) == now
                &&& now < start ==> crate::outside::nanos(d) == 0
            },
            _ => true,
        },
{
}

/// A snapshot shows the counters as they are: the count, whether a message is in
/// hand, the waiting messages, and when the last message began, if one ever did.
pub proof fn law_snapshot_shows_the_counters(a: Activity, base: Instant, mailbox_depth: usize)
    ensures
        ({
            let s = a.seen(base, mailbox_depth);
            &&& s.message_count == a.message_count
            &&& s.is_busy == a.busy
            &&& s.mailbox_depth == mailbox_depth
            &&& s.last_activity is None <==> a.last_activity_ms == 0
            &&& s.last_activity matches Some(t) ==> t.base == base && t.offset_ms
                == a.last_activity_ms
        }),
{
}

/// Starting and finishing a message, one after the other: the count goes up by one,
/// the start is remembered, and nothing else of the past is.
pub proof fn law_a_message_leaves_its_trace(a: Activity, elapsed_ms: u64)
    requires
        a.message_count < u64::MAX,
    ensures
        ({
            let during = a.started(elapsed_ms);
            let after = during.finished();
            &&& during.message_count == a.message_count + 1
            &&& during.busy
            &&& elapsed_ms > 0 ==> during.last_activity_ms == elapsed_ms
            &&& elapsed_ms == 0 ==> during.last_activity_ms == 1
            &&& after.message_count == a.message_count + 1
            &&& !after.busy
            &&& after.last_activity_ms == during.last_activity_ms
        }),
{
}

// ---------------------------------------------------------------------------
// Status
// ---------------------------------------------------------------------------

/// A status says who the actor is as the tree has it, and how it is as it was read:
/// alive, busy, how many messages wait and were handled, and for how many whole
/// milliseconds it had been idle.
pub proof fn law_status_tells_the_truth(s: ActorStatus, id: ActorId, node: Node)
    requires
        s.describes(id, node),
    ensures
        s.id == id,
        s.name@ == node.name,
        s.parent == node.parent,
        s.restarts == node.restarts,
        exists|r: Reading| #[trigger] node.read_as(r) && shown_truly(s, r),
{
    let r = choose|r: Reading| #[trigger] node.read_as(r) && s.shows(r);
    if let Some(d) = r.idle {
        let n = crate::outside::nanos(d) as nat;
        if n < 18_446_744_073_709_551_616 * 1_000_000 {
            law_millis_are_whole(n, n);
        }
    }
    assert(shown_truly(s, r));
}

/// Each part of the status is what was read.
pub open spec fn shown_truly(s: ActorStatus, r: Reading) -> bool {
    &&& s.alive == r.alive
    &&& s.busy == r.snapshot.is_busy
    &&& s.mailbox_depth == r.snapshot.mailbox_depth
    &&& s.message_count == r.snapshot.message_count
    &&& s.idle_ms is Some <==> r.idle is Some
    &&& match (s.idle_ms, r.idle) {
        (Some(ms), Some(d)) => crate::outside::nanos(d) < 18_446_744_073_709_551_616 * 1_000_000
            ==> ms * 1_000_000 <= crate::outside::nanos(d) < (ms + 1) * 1_000_000,
        _ => true,
    }
}

/// For an idle time `d` that was read, the status shows the milliseconds in it in
/// full, rounded down; a longer idle time never shows fewer.
pub proof fn law_longer_idle_never_shows_less(
    s: ActorStatus,
    r: Reading,
    later: ActorStatus,
    longer: Reading,
    d: Duration,
    more: Duration,
)
    requires
        s.shows(r),
        later.shows(longer),
        r.idle == Some(d),
        longer.idle == Some(more),
        crate::outside::nanos(d) <= crate::outside::nanos(more),
        crate::outside::nanos(more) < 18_446_744_073_709_551_616 * 1_000_000,
    ensures
        s.idle_ms is Some,
        later.idle_ms is Some,
        s.idle_ms->0 * 1_000_000 <= crate::outside::nanos(d) < (s.idle_ms->0 + 1) * 1_000_000,
        s.idle_ms->0 <= later.idle_ms->0,
{
    law_millis_are_whole(
        crate::outside::nanos(d) as nat,
        crate::outside::nanos(more) as nat,
    );
    vstd::arithmetic::div_mod::lemma_small_mod(
        crate::outside::nanos(d) as nat / 1_000_000,
        18_446_744_073_709_551_616,
    );
}

/// What is read of an actor is read of that actor: its own token, its own mailbox
/// and its own counters, and the clock after them.
pub proof fn law_reading_is_of_the_actor(node: Node, r: Reading)
    requires
        node.read_as(r),
    ensures
        crate::outside::cancel_read(node.token, !r.alive),
        (node.depth_reads)(r.snapshot.mailbox_depth),
        exists|a: Activity| #[trigger]
            node.stats.seen_as(a) && r.snapshot.message_count == a.message_count
                && r.snapshot.is_busy == a.busy && (r.snapshot.last_activity is None
                <==> a.last_activity_ms == 0),
        r.idle is Some <==> r.snapshot.last_activity is Some,
{
    let depth = r.snapshot.mailbox_depth;
    let a = choose|a: Activity| #[trigger]
        node.stats.seen_as(a) && a.wf() && r.snapshot == a.seen(node.stats.base(), depth);
    assert(node.stats.seen_as(a));
}

/// The status actor answers what was asked, to whoever asked: the status of the
/// right actor if the tree has it, and none if not; a picture of the tree; or the
/// whole log.
pub proof fn law_queries_get_their_answer(
    answer: StatusAnswer,
    msg: StatusMsg,
    system: ActorSystem,
    log: Seq<Seq<char>>,
)
    requires
        answer.answers(msg, system, log),
    ensures
        msg matches StatusMsg::GetActor(id, asker) ==> (answer matches StatusAnswer::Actor(
            reply,
            found,
        ) && reply == asker && found_truly(system, id, found)),
        msg matches StatusMsg::GetTree(asker) ==> (answer matches StatusAnswer::Tree(reply, nodes)
            && reply == asker && crate::tree_laws::shown_all(nodes@).no_duplicates() && (exists|
            t: Tree,
        | #[trigger]
            system.tree_seen(t) && forall|x: ActorId| #[trigger]
                crate::tree_laws::shown_all(nodes@).contains(x) <==> crate::tree_laws::anchored(
                    t,
                    x,
                ))),
        msg matches StatusMsg::RecentEvents(asker) ==> (answer matches StatusAnswer::Events(
            reply,
            lines,
        ) && reply == asker && lines@.len() == log.len() && forall|i: int|
            0 <= i < log.len() ==> (#[trigger] lines@[i])@ == log[i]),
        msg is Event ==> answer is Nothing,
{
    match msg {
        StatusMsg::GetActor(id, _) => {
            if let StatusAnswer::Actor(_, found) = answer {
                law_actor_is_found_if_registered(system, id, found);
            }
        },
        StatusMsg::GetTree(_) => {
            if let StatusAnswer::Tree(_, nodes) = answer {
                crate::supervisor::law_live_forest_shows_everybody_once(system, nodes@);
            }
        },
        StatusMsg::RecentEvents(_) => {
            if let StatusAnswer::Events(_, lines) = answer {
                assert(crate::text::texts(lines@).len() == lines@.len());
                assert forall|i: int| 0 <= i < log.len() implies (#[trigger] lines@[i])@
                    == log[i] by {
                    assert(crate::text::texts(lines@)[i] == lines@[i]@);
                }
            }
        },
        StatusMsg::Event(_) => {},
    }
}

/// The status is found exactly if the actor was in the tree as it was seen, and says
/// then what the tree says of it.
pub open spec fn found_truly(system: ActorSystem, id: ActorId, found: Option<ActorStatus>) -> bool {
    exists|t: Tree| #[trigger]
        system.tree_seen(t) && (found is Some <==> t.contains_key(id)) && (found matches Some(s)
            ==> s.id == id && s.name@ == t[id].name && s.parent == t[id].parent && s.restarts
            == t[id].restarts)
}

/// An actor's status is found exactly if it is registered.
pub proof fn law_actor_is_found_if_registered(
    system: ActorSystem,
    id: ActorId,
    found: Option<ActorStatus>,
)
    requires
        system.status_of_seen(id, found),
    ensures
        found_truly(system, id, found),
{
    let t = choose|t: Tree| #[trigger]
        system.tree_seen(t) && system.sound_tree(t) && (found is Some <==> t.contains_key(id)) && (
        found matches Some(s) ==> s.describes(id, t[id]));
    assert(system.tree_seen(t));
}

/// An answer goes out on the channel that it was asked for on.
pub proof fn law_answers_are_sent(answer: StatusAnswer)
    requires
        answer.delivered(),
    ensures
        answer matches StatusAnswer::Tree(reply, nodes) ==> crate::outside::replied(reply, nodes),
        answer matches StatusAnswer::Actor(reply, found) ==> crate::outside::replied(reply, found),
        answer matches StatusAnswer::Events(reply, lines) ==> crate::outside::replied(
            reply,
            lines,
        ),
{
}

/// The log keeps the last 256 lines, all of them if there are no more, in order.
pub proof fn law_log_keeps_256_lines(lines: Seq<Seq<char>>, i: int)
    ensures
        ({
            let log = crate::status_actor::log_of(lines);
            &&& lines.len() <= 256 ==> log == lines
            &&& lines.len() > 256 ==> log.len() == 256
            &&& 0 <= i < log.len() ==> log[i] == lines[lines.len() - log.len() + i]
        }),
{
    crate::status_actor::law_log_keeps_the_most_recent(lines);
}

/// Slow subscribers find the last 256 events.
pub proof fn law_event_stream_keeps_256_events()
    ensures
        crate::supervisor::EVENT_BACKLOG == 256,
{
}

// ---------------------------------------------------------------------------
// Eviction
// ---------------------------------------------------------------------------

/// The idle are evicted: a child that is not busy, has no messages waiting and has
/// been idle for at least the `ttl` is among the ids that come back, and it is not
/// registered any more.
pub proof fn law_eviction_takes_the_idle<Msg: Send + 'static>(
    m: Map<Seq<char>, ActorHandle<Msg>>,
    seen: Seq<(String, Observation)>,
    ttl: Duration,
    i: int,
    d: Duration,
)
    requires
        0 <= i < seen.len(),
        !seen[i].1.snapshot.is_busy,
        seen[i].1.snapshot.mailbox_depth == 0,
        seen[i].1.idle == Some(d),
        crate::outside::nanos(d) >= crate::outside::nanos(ttl),
    ensures
        crate::registry::evicted_keys(seen, ttl).contains(seen[i].0@),
        !m.remove_keys(crate::registry::evicted_keys(seen, ttl).to_set()).contains_key(
            seen[i].0@,
        ),
{
    crate::registry::law_eviction_takes_the_evictable(seen, ttl);
    assert(seen[i].1.evictable(ttl));
}

/// Nobody else is evicted: whoever comes back as evicted was looked at, was not
/// busy, had no messages waiting, and had been idle for at least the `ttl`; and
/// everybody who does not come back stays registered as before.
pub proof fn law_eviction_takes_only_the_idle<Msg: Send + 'static>(
    m: Map<Seq<char>, ActorHandle<Msg>>,
    seen: Seq<(String, Observation)>,
    ttl: Duration,
    key: Seq<char>,
)
    ensures
        crate::registry::evicted_keys(seen, ttl).contains(key) ==> exists|i: int|
            0 <= i < seen.len() && (#[trigger] seen[i]).0@ == key && !seen[i].1.snapshot.is_busy
                && seen[i].1.snapshot.mailbox_depth == 0 && seen[i].1.idle is Some
                && crate::outside::nanos(seen[i].1.idle->0) >= crate::outside::nanos(ttl),
        !crate::registry::evicted_keys(seen, ttl).contains(key) ==> {
            let left = m.remove_keys(crate::registry::evicted_keys(seen, ttl).to_set());
            &&& left.contains_key(key) <==> m.contains_key(key)
            &&& m.contains_key(key) ==> left[key] == m[key]
        },
{
    crate::registry::law_eviction_takes_the_evictable(seen, ttl);
    if crate::registry::evicted_keys(seen, ttl).contains(key) {
        let i = choose|i: int|
            0 <= i < seen.len() && seen[i].0@ == key && (#[trigger] seen[i]).1.evictable(ttl);
        assert(seen[i].0@ == key);
    }
}

/// Everybody is looked at before anybody is evicted: each registered child once,
/// and what was seen of it is what its own handle reported.
pub proof fn law_everybody_is_looked_at<Msg: Send + 'static>(
    m: Map<Seq<char>, ActorHandle<Msg>>,
    seen: Seq<(String, Observation)>,
    key: Seq<char>,
)
    requires
        crate::registry::observed(m, seen),
    ensures
        m.contains_key(key) ==> exists|i: int|
            0 <= i < seen.len() && (#[trigger] seen[i]).0@ == key && m[key].reports(
                seen[i].1.snapshot,
            ) && seen[i].1.snapshot.idle_read(seen[i].1.idle),
        forall|i: int, j: int|
            0 <= i < j < seen.len() ==> (#[trigger] seen[i]).0@ != (#[trigger] seen[j]).0@,
        forall|i: int| 0 <= i < seen.len() ==> m.contains_key((#[trigger] seen[i]).0@),
{
    let keys = crate::registry::keys_of(seen);
    if m.contains_key(key) {
        assert(keys.contains(key));
        let i = keys.index_of(key);
        assert(seen[i].0@ == key);
    }
    assert forall|i: int, j: int| 0 <= i < j < seen.len() implies (#[trigger] seen[i]).0@ != (
    #[trigger] seen[j]).0@ by {
        assert(keys[i] != keys[j]);
    }
    assert forall|i: int| 0 <= i < seen.len() implies m.contains_key((#[trigger] seen[i]).0@) by {
        assert(keys[i] == seen[i].0@);
        assert(keys.contains(seen[i].0@));
    }
}

/// A list of ids names every registered child, once.
pub proof fn law_ids_name_everybody_once<V>(
    keys: Seq<Seq<char>>,
    m: Map<Seq<char>, V>,
    key: Seq<char>,
)
    requires
        crate::registry::lists_keys(keys, m),
    ensures
        m.contains_key(key) <==> exists|i: int| 0 <= i < keys.len() && #[trigger] keys[i] == key,
        forall|i: int, j: int| 0 <= i < j < keys.len() ==> keys[i] != keys[j],
{
    if m.contains_key(key) {
        assert(keys.contains(key));
        assert(keys[keys.index_of(key)] == key);
    }
    if exists|i: int| 0 <= i < keys.len() && #[trigger] keys[i] == key {
        assert(keys.contains(key));
    }
}

/// How long a child has been idle is read off its own handle; an absent one has no
/// idle time.
pub proof fn law_idle_time_is_the_childs_own<Msg: Send + 'static>(
    m: Map<Seq<char>, ActorHandle<Msg>>,
    id: Seq<char>,
    idle: Option<Duration>,
)
    requires
        crate::registry::idle_of(m, id, idle),
    ensures
        !m.contains_key(id) ==> idle is None,
        m.contains_key(id) ==> exists|s: ActorStatsSnapshot| #[trigger]
            m[id].reports(s) && (idle is Some <==> s.last_activity is Some),
{
    if m.contains_key(id) {
        let s = choose|s: ActorStatsSnapshot| #[trigger]
            m[id].reports(s) && s.idle_read(idle);
        assert(m[id].reports(s));
    }
}

// ---------------------------------------------------------------------------
// Mailboxes and loops
// ---------------------------------------------------------------------------

/// The places of a mailbox that are not free are taken.
pub proof fn law_places_are_free_or_taken(max: usize, free: usize)
    ensures
        free <= max ==> crate::handle::occupied(max, free) + free == max,
        free > max ==> crate::handle::occupied(max, free) == 0,
{
}

/// A message that was told was offered to the actor's own mailbox, and the outcome
/// is the mailbox's: taken, full, or gone.
pub proof fn law_tell_reports_the_mailbox<Msg: Send + 'static>(
    h: ActorHandle<Msg>,
    msg: Msg,
    r: Result<(), TellError>,
)
    requires
        h.told(msg, r),
    ensures
        exists|answer: Result<(), SendFailure<Msg>>| #[trigger]
            crate::outside::offered(h.mailbox(), msg, answer) && (r is Ok <==> answer is Ok) && (r
                == Err::<(), TellError>(TellError::MailboxFull) <==> answer matches Err(
                SendFailure::Full(_),
            )) && (r == Err::<(), TellError>(TellError::ActorGone) <==> answer matches Err(
                SendFailure::Closed(_),
            )),
{
    let answer = choose|answer: Result<(), SendFailure<Msg>>| #[trigger]
        crate::outside::offered(h.mailbox(), msg, answer) && r == crate::handle::outcome(answer);
    assert(crate::outside::offered(h.mailbox(), msg, answer));
}

/// What an actor's handle reports are the actor's own counters and mailbox.
pub proof fn law_stats_are_the_actors_own<Msg: Send + 'static>(
    h: ActorHandle<Msg>,
    s: ActorStatsSnapshot,
)
    requires
        h.reports(s),
    ensures
        exists|max: usize, free: usize| #[trigger]
            crate::outside::room_read(h.mailbox(), max, free) && (free <= max ==> s.mailbox_depth
                + free == max) && (free > max ==> s.mailbox_depth == 0),
        exists|a: Activity| #[trigger]
            h.counters().seen_as(a) && s.message_count == a.message_count && s.is_busy == a.busy
                && (s.last_activity is None <==> a.last_activity_ms == 0),
{
    let depth = choose|depth: usize| #[trigger]
        crate::handle::depth_read(h.mailbox(), depth) && h.counters().reports(depth, s);
    let (max, free) = choose|max: usize, free: usize| #[trigger]
        crate::outside::room_read(h.mailbox(), max, free) && depth == crate::handle::occupied(
            max,
            free,
        );
    assert(crate::outside::room_read(h.mailbox(), max, free));
    let a = choose|a: Activity| #[trigger]
        h.counters().seen_as(a) && a.wf() && s == a.seen(h.counters().base(), depth);
    assert(h.counters().seen_as(a));
}

/// The words of the errors.
pub proof fn law_errors_say_what_happened()
    ensures
        TellError::MailboxFull.text() == "actor mailbox error: no available capacity"@,
        TellError::ActorGone.text() == "actor mailbox error: channel closed"@,
        AskError::ActorDead.text() == "actor is dead — cannot send message"@,
        AskError::NoReply.text() == "actor dropped reply sender without responding"@,
{
}

/// What the loop does: a message is handled as it is; poison drains; cancellation,
/// an empty closed mailbox, and nobody referring to the actor stop it, and nothing
/// else does.
pub proof fn law_what_stops_a_loop<M>(ev: LoopEvent<M>)
    ensures
        match ev {
            LoopEvent::Message(m) => crate::incarnation::answer(ev) == LoopAction::Handle(m),
            LoopEvent::Poisoned => crate::incarnation::answer(ev) == LoopAction::<M>::Drain,
            LoopEvent::Cancelled => crate::incarnation::answer(ev) == LoopAction::<M>::Stop,
            LoopEvent::Closed => crate::incarnation::answer(ev) == LoopAction::<M>::Stop,
            LoopEvent::Abandoned => crate::incarnation::answer(ev) == LoopAction::<M>::Stop,
        },
{
}

/// A panic is reported in its own words; in the word `panic` if it has none.
pub proof fn law_panics_are_reported_in_their_words(payload: PanicPayload)
    ensures
        payload matches PanicPayload::Literal(s) ==> crate::lifecycle::panic_text(payload) == s@,
        payload matches PanicPayload::Text(s) ==> crate::lifecycle::panic_text(payload) == s@,
        payload is Other ==> crate::lifecycle::panic_text(payload) == "panic"@,
{
}

// ---------------------------------------------------------------------------
// Pools
// ---------------------------------------------------------------------------

/// The count of the living is the number of workers that were found alive, each of
/// them asked once.
pub proof fn law_the_living_are_counted(flags: Seq<bool>)
    ensures
        crate::pool::count(flags) == flags.filter(|b: bool| b).len(),
    decreases flags.len(),
{
    reveal(Seq::filter);
    if flags.len() > 0 {
        law_the_living_are_counted(flags.drop_last());
    }
}

/// Every worker is asked with its own token.
pub proof fn law_every_worker_is_asked<Msg: Send + 'static>(
    pool: ActorPool<Msg>,
    alive: Seq<bool>,
    i: int,
)
    requires
        pool.alive_read(alive),
        0 <= i < pool.members().len(),
    ensures
        alive.len() == pool.members().len(),
        crate::outside::cancel_read(pool.members()[i].token(), !alive[i]),
        !alive[i] ==> crate::cascade::told_to_stop(pool.members()[i].token()),
{
}

// ---------------------------------------------------------------------------
// Ids and text
// ---------------------------------------------------------------------------

/// Numbers follow one another, and start over at zero after the last one.
pub proof fn law_numbers_follow_one_another(n: u64)
    ensures
        n < u64::MAX ==> crate::id::successor(n) == n + 1,
        n == u64::MAX ==> crate::id::successor(n) == 0,
{
}

/// The number of the next actor is the first that will do: it is not below `next`,
/// it is above the youngest actor and above its parent, and no smaller number is all
/// that. There is none only if no number is.
pub proof fn law_next_number_is_the_first_that_will_do(
    next: u64,
    youngest: Option<u64>,
    parent: Option<ActorId>,
    other: u64,
)
    ensures
        ({
            let found = crate::roster::first_fresh(next, youngest, parent);
            &&& found matches Some(n) ==> will_do(n, next, youngest, parent)
            &&& found matches Some(n) ==> other < n ==> !will_do(other, next, youngest, parent)
            &&& found is None ==> !will_do(other, next, youngest, parent)
        }),
{
}

/// The number may be given to the next actor.
pub open spec fn will_do(
    n: u64,
    next: u64,
    youngest: Option<u64>,
    parent: Option<ActorId>,
) -> bool {
    &&& n >= next
    &&& (youngest matches Some(y) ==> n > y)
    &&& (parent matches Some(p) ==> n > p@)
}

/// The number that a text of decimal digits stands for.
pub open spec fn number_of(s: Seq<char>) -> nat
    decreases s.len(),
{
    if s.len() == 0 {
        0
    } else {
        (10 * number_of(s.drop_last()) + (s.last() as int - '0' as int)) as nat
    }
}

/// A number in decimal notation can be read back: it is made of digits only, without
/// a leading zero, and stands for the number.
pub proof fn law_decimal_reads_back(n: nat)
    ensures
        number_of(crate::text::decimal(n)) == n,
        crate::text::decimal(n).len() > 0,
        forall|i: int|
            0 <= i < crate::text::decimal(n).len() ==> '0' <= #[trigger] crate::text::decimal(n)[i]
                <= '9',
        n > 0 ==> crate::text::decimal(n)[0] != '0',
        n == 0 ==> crate::text::decimal(n) == seq!['0'],
    decreases n,
{
    let s = crate::text::decimal(n);
    if n < 10 {
        assert(s.drop_last() =~= seq![]);
        reveal_with_fuel(number_of, 2);
        assert(number_of(s) == (s.last() as int - '0' as int) as nat);
    } else {
        law_decimal_reads_back(n / 10);
        assert(s.drop_last() =~= crate::text::decimal(n / 10));
        assert(s.last() as int - '0' as int == n % 10);
        assert(n == 10 * (n / 10) + n % 10);
    }
}

/// The lines of the event log, word by word.
pub proof fn law_event_lines(ev: EventView)
    ensures
        ev matches EventView::Spawned { id, name, parent: None } ==> crate::event::event_text(ev)
            == "Spawned { id: "@ + ("ActorId("@ + crate::text::decimal(id@ as nat) + ")"@)
            + ", name: "@ + crate::outside::quoted(name) + ", parent: "@ + "None"@ + " }"@,
        ev matches EventView::Spawned { id, name, parent: Some(p) } ==> crate::event::event_text(ev)
            == "Spawned { id: "@ + ("ActorId("@ + crate::text::decimal(id@ as nat) + ")"@)
            + ", name: "@ + crate::outside::quoted(name) + ", parent: "@ + ("Some("@ + ("ActorId("@
            + crate::text::decimal(p@ as nat) + ")"@) + ")"@) + " }"@,
        ev matches EventView::Restarted { id, restarts } ==> crate::event::event_text(ev)
            == "Restarted { id: "@ + ("ActorId("@ + crate::text::decimal(id@ as nat) + ")"@)
            + ", restarts: "@ + crate::text::decimal(restarts as nat) + " }"@,
        ev matches EventView::Failed { id, ancestry, error } ==> crate::event::event_text(ev)
            == "Failed { id: "@ + ("ActorId("@ + crate::text::decimal(id@ as nat) + ")"@)
            + ", ancestry: ["@ + crate::event::ids_text(ancestry) + "], error: "@
            + crate::outside::quoted(error) + " }"@,
        ev matches EventView::Stopped { id } ==> crate::event::event_text(ev) == "Stopped { id: "@
            + ("ActorId("@ + crate::text::decimal(id@ as nat) + ")"@) + " }"@,
{
}

/// Ids are listed one after the other, with a comma and a space in between.
pub proof fn law_ids_are_listed_in_order(ids: Seq<ActorId>, last: ActorId)
    ensures
        crate::event::ids_text(Seq::<ActorId>::empty()) == Seq::<char>::empty(),
        crate::event::ids_text(seq![last]) == "ActorId("@ + crate::text::decimal(last@ as nat)
            + ")"@,
        ids.len() > 0 ==> crate::event::ids_text(ids.push(last)) == crate::event::ids_text(ids)
            + ", "@ + ("ActorId("@ + crate::text::decimal(last@ as nat) + ")"@),
{
    assert(ids.push(last).drop_last() =~= ids);
}

// ---------------------------------------------------------------------------
// The tree
// ---------------------------------------------------------------------------

/// Taking an actor out of the tree takes out nobody else, and changes nobody but its
/// parent, which lists the same children in the same order without that one.
pub proof fn law_deregister_leaves_the_others(t: Tree, id: ActorId, other: ActorId)
    requires
        other != id,
    ensures
        ({
            let after = crate::tree::deregistered(t, id);
            &&& after.contains_key(other) <==> t.contains_key(other)
            &&& t.contains_key(other) ==> {
                &&& after[other].name == t[other].name
                &&& after[other].parent == t[other].parent
                &&& after[other].restarts == t[other].restarts
                &&& after[other].token == t[other].token
                &&& after[other].stats == t[other].stats
                &&& after[other].depth_reads == t[other].depth_reads
                &&& t.contains_key(id) && t[id].parent == Some(other) ==> after[other].children
                    == t[other].children.filter(|c: ActorId| c != id)
                &&& !(t.contains_key(id) && t[id].parent == Some(other)) ==> after[other]
                    == t[other]
            }
        }),
{
    lemma_without_one(t[other].children, id);
}

proof fn lemma_without_one(ids: Seq<ActorId>, id: ActorId)
    ensures
        crate::tree::without(ids, id) == ids.filter(|c: ActorId| c != id),
    decreases ids.len(),
{
    reveal(Seq::filter);
    if ids.len() > 0 {
        lemma_without_one(ids.drop_last(), id);
    }
}

/// A new actor is listed last by its parent, of which nothing else changes.
pub proof fn law_register_changes_only_the_parents_list(
    t: Tree,
    id: ActorId,
    node: Node,
    parent: ActorId,
)
    requires
        node.parent == Some(parent),
        parent != id,
        t.contains_key(parent),
    ensures
        ({
            let after = crate::tree::registered(t, id, node)[parent];
            &&& after.children == t[parent].children.push(id)
            &&& after.name == t[parent].name
            &&& after.parent == t[parent].parent
            &&& after.restarts == t[parent].restarts
            &&& after.token == t[parent].token
            &&& after.stats == t[parent].stats
            &&& after.depth_reads == t[parent].depth_reads
        }),
{
}

/// The parent chain follows the parents: it begins with the actor's parent, each is
/// followed by its own, and it ends only where there is no further parent.
pub proof fn law_ancestry_follows_the_parents(t: Tree, id: ActorId)
    requires
        crate::tree::ordered(t),
    ensures
        ({
            let chain = crate::tree::ancestry_of(t, id);
            &&& chain.len() == 0 <==> !(t.contains_key(id) && t[id].parent is Some)
            &&& chain.len() > 0 ==> t.contains_key(id) && t[id].parent == Some(chain[0])
            &&& forall|i: int|
                0 <= i < chain.len() - 1 ==> t.contains_key(#[trigger] chain[i])
                    && t[chain[i]].parent == Some(chain[i + 1])
            &&& chain.len() > 0 ==> !(t.contains_key(chain.last()) && t[chain.last()].parent
                is Some)
        }),
    decreases id@,
{
    let chain = crate::tree::ancestry_of(t, id);
    if let Some(p) = crate::tree::parent_of(t, id) {
        law_ancestry_follows_the_parents(t, p);
        let rest = crate::tree::ancestry_of(t, p);
        assert(chain =~= seq![p] + rest);
        assert forall|i: int| 0 <= i < chain.len() - 1 implies t.contains_key(#[trigger] chain[i])
            && t[chain[i]].parent == Some(chain[i + 1]) by {
            if i > 0 {
                assert(chain[i] == rest[i - 1]);
                assert(chain[i + 1] == rest[i]);
            } else {
                assert(chain[1] == rest[0]);
            }
        }
        if rest.len() > 0 {
            assert(chain.last() == rest.last());
        } else {
            assert(chain.last() == p);
        }
    }
}

/// A picture of an actor says who it is, and has a picture of each of its registered
/// children, in the order in which they came, and of nobody else.
pub proof fn law_picture_follows_the_tree(t: Tree, id: ActorId, n: ActorNode)
    requires
        crate::tree::pictures(t, id, n),
    ensures
        t.contains_key(id),
        n.status.id == id,
        n.status.name@ == t[id].name,
        n.status.parent == t[id].parent,
        n.status.restarts == t[id].restarts,
        ({
            let live = t[id].children.filter(|c: ActorId| t.contains_key(c));
            &&& n.children@.len() == live.len()
            &&& forall|i: int|
                0 <= i < live.len() ==> (#[trigger] n.children@[i]).status.id == live[i]
                    && crate::tree::pictures(t, live[i], n.children@[i])
        }),
{
    let live = t[id].children.filter(|c: ActorId| t.contains_key(c));
    assert(live == crate::tree::live_children(t, id));
    assert forall|i: int| 0 <= i < live.len() implies (#[trigger] n.children@[i]).status.id
        == live[i] && crate::tree::pictures(t, live[i], n.children@[i]) by {
        assert(crate::tree::pictures(t, live[i], n.children@[i]));
    }
}

// ---------------------------------------------------------------------------
// Enrolling
// ---------------------------------------------------------------------------

/// Whoever is enrolled begins as the options say: with a mailbox of its own, with its
/// restarts ahead of it, with a token that stops with the system, and announced once
/// under its own name and parent.
pub proof fn law_a_life_begins<M: Send + 'static>(
    a: Enrollment<M>,
    system: ActorSystem,
    max_restarts: u32,
    buffer: usize,
)
    requires
        a.begins(system, max_restarts, buffer),
    ensures
        a.life.deeds().told() == seq![
            EventView::Spawned { id: a.ctx@.id, name: a.ctx@.name, parent: a.ctx@.parent },
        ],
        a.life.deeds().stops().len() == 0,
        a.life.deeds().changes() == 0,
        a.life.policy().id == a.ctx@.id,
        a.life.policy().restarts == 0,
        a.life.policy().max_restarts == max_restarts,
        a.life.system() == system,
        a.ctx.own_system() == system,
        a.life.token() == a.actor.token(),
        a.ctx@.token == a.actor.token(),
        a.inbox.token == a.actor.token(),
        a.inbox.poison == a.actor.poison_token(),
        crate::outside::opened(buffer, a.actor.link().mailbox(), a.inbox.rx),
        a.ctx.own_ref().link().mailbox() == a.actor.link().mailbox(),
        a.ctx.own_ref().token() == a.actor.token(),
        crate::cascade::stops_with(a.actor.token(), system.root_source()),
        crate::outside::independent(a.actor.poison_token()),
{
}

/// Whoever is enrolled is in the tree: under its own id, with its own name, parent,
/// token and counters, no children and no restarts.
pub proof fn law_the_enrolled_are_in_the_tree<M: Send + 'static>(
    a: Enrollment<M>,
    site: SpawnSite,
    next: u64,
)
    requires
        a.enrolled_at(site, next),
    ensures
        exists|before: Tree, after: Tree| #[trigger]
            site.home().tree_went(before, after) && !before.contains_key(a.ctx@.id)
                && after.contains_key(a.ctx@.id) && shows_as_new(after[a.ctx@.id], a),
        a.ctx@.id@ >= next,
        crate::outside::child_of(a.ctx@.token, site.token()),
{
    let node = choose|node: Node| #[trigger]
        site.home().entered(a.ctx@.id, node, next) && a.is_shown_by(node);
    crate::supervisor::lemma_entered(site.home(), a.ctx@.id, node, next);
    let t = choose|t: Tree| #[trigger]
        site.home().tree_went(t, crate::tree::registered(t, a.ctx@.id, node))
            && crate::tree::unknown(t, a.ctx@.id);
    let after = crate::tree::registered(t, a.ctx@.id, node);
    assert(site.home().tree_went(t, after));
    assert(shows_as_new(after[a.ctx@.id], a));
}

/// The node stands for the actor as it begins.
pub open spec fn shows_as_new<M: Send + 'static>(node: Node, a: Enrollment<M>) -> bool {
    &&& node.name == a.ctx@.name
    &&& node.parent == a.ctx@.parent
    &&& node.children.len() == 0
    &&& node.restarts == 0
    &&& node.token == a.actor.token()
    &&& node.stats == a.actor.link().counters()
}

/// A new actor of a started system goes below the root actor, and one of a system
/// that was not started on its own.
pub proof fn law_new_actors_go_below_the_root(system: ActorSystem, site: SpawnSite)
    requires
        system.site_seen(site),
    ensures
        site.home() == system,
        site.parent() == system.root_actor(),
        system.root_actor() is None ==> site.token() == system.root_source(),
        system.root_actor() matches Some(root) ==> exists|t: Tree| #[trigger]
            system.tree_seen(t) && (t.contains_key(root) ==> site.token() == t[root].token) && (
            !t.contains_key(root) ==> site.token() == system.root_source()),
{
}

/// Everything of an actor that is told to stop at its own token stops with it, and
/// so does everybody that was enrolled below it.
pub proof fn law_stopping_reaches_everybody_below<P: Send + 'static, M: Send + 'static>(
    parent: Context<P>,
    site: SpawnSite,
    child: Enrollment<M>,
    next: u64,
    grandchild: CancellationToken,
)
    requires
        crate::cascade::stops_with(site.token(), parent@.token),
        child.enrolled_at(site, next),
        crate::outside::child_of(grandchild, child.ctx@.token),
        crate::outside::cancelled(parent@.token),
    ensures
        exists|source: CancellationToken| #[trigger]
            crate::outside::cancelled(source) && crate::cascade::stops_with(
                child.ctx@.token,
                source,
            ),
        exists|source: CancellationToken| #[trigger]
            crate::outside::cancelled(source) && crate::cascade::stops_with(grandchild, source),
{
    crate::cascade::lemma_stops_with_itself(parent@.token);
    assert(crate::cascade::told_to_stop(parent@.token));
    crate::supervisor::law_children_stop_with_their_parent(parent, site, child, next);
    crate::cascade::lemma_stops_with_itself(child.ctx@.token);
    crate::cascade::lemma_child_stops_with(grandchild, child.ctx@.token, child.ctx@.token);
    crate::cascade::law_cascade_reaches_everybody_below(grandchild, child.ctx@.token);
}

// ---------------------------------------------------------------------------
// The system
// ---------------------------------------------------------------------------

/// What is said to have been announced went out on the system's own event stream.
pub proof fn law_announced_is_published(system: ActorSystem, ev: EventView)
    requires
        system.announced(ev),
    ensures
        exists|e: crate::event::SupervisionEvent| #[trigger]
            crate::outside::published(system.event_sender(), e) && e@ == ev,
{
}

/// What is said to have been seen of the tree was found under its lock.
pub proof fn law_the_tree_is_seen_under_its_lock(system: ActorSystem, t: Tree)
    requires
        system.tree_seen(t),
    ensures
        exists|r: crate::roster::Roster| #[trigger]
            crate::shared::found(system.roster_lock(), r) && r@.tree == t,
{
}

/// An actor that was taken out was taken out of the system's own tree, under its
/// lock: it was not there afterwards, and everybody else was as before.
pub proof fn law_taken_out_is_gone(system: ActorSystem, id: ActorId)
    requires
        system.taken_out(id),
    ensures
        exists|a: crate::roster::Roster, b: crate::roster::Roster| #[trigger]
            crate::shared::replaced(system.roster_lock(), a, b) && !b@.tree.contains_key(id) && (
            forall|other: ActorId|
                other != id ==> (#[trigger] a@.tree.contains_key(other) <==> b@.tree.contains_key(
                    other,
                )) && (a@.tree.contains_key(other) ==> b@.tree[other].token == a@.tree[other].token
                    && b@.tree[other].restarts == a@.tree[other].restarts && b@.tree[other].parent
                    == a@.tree[other].parent)),
{
    let t = choose|t: Tree|
        {
            &&& #[trigger] system.tree_went(t, crate::tree::deregistered(t, id))
            &&& system.sound_tree(t)
            &&& crate::tree::unlisted(crate::tree::deregistered(t, id), id)
        };
    let (a, b) = choose|a: crate::roster::Roster, b: crate::roster::Roster| #[trigger]
        crate::shared::replaced(system.roster_lock(), a, b) && a@.changes_to(b@) && a@.tree == t
            && b@.tree == crate::tree::deregistered(t, id);
    assert forall|other: ActorId| other != id implies (#[trigger] a@.tree.contains_key(other)
        <==> b@.tree.contains_key(other)) && (a@.tree.contains_key(other) ==> b@.tree[other].token
        == a@.tree[other].token && b@.tree[other].restarts == a@.tree[other].restarts
        && b@.tree[other].parent == a@.tree[other].parent) by {
        law_deregister_leaves_the_others(t, id, other);
    }
}

/// Restarts that were noted stand in the system's own tree, under the right actor,
/// and nobody else is touched.
pub proof fn law_noted_restarts_stand_in_the_tree(system: ActorSystem, id: ActorId, n: u32)
    requires
        system.restarts_noted(id, n),
    ensures
        exists|a: crate::roster::Roster, b: crate::roster::Roster| #[trigger]
            crate::shared::replaced(system.roster_lock(), a, b) && (a@.tree.contains_key(id)
                ==> b@.tree.contains_key(id) && b@.tree[id].restarts == n && b@.tree[id].token
                == a@.tree[id].token) && (forall|other: ActorId|
                other != id ==> (#[trigger] a@.tree.contains_key(other) <==> b@.tree.contains_key(
                    other,
                )) && (a@.tree.contains_key(other) ==> b@.tree[other] == a@.tree[other])),
{
    let t = choose|t: Tree| #[trigger]
        system.tree_went(t, crate::tree::restarted(t, id, n)) && system.sound_tree(t);
    let (a, b) = choose|a: crate::roster::Roster, b: crate::roster::Roster| #[trigger]
        crate::shared::replaced(system.roster_lock(), a, b) && a@.changes_to(b@) && a@.tree == t
            && b@.tree == crate::tree::restarted(t, id, n);
    crate::tree_laws::law_restart_is_one_for_one(t, id, n);
    assert(crate::shared::replaced(system.roster_lock(), a, b));
    assert forall|other: ActorId| other != id implies (#[trigger] a@.tree.contains_key(other)
        <==> b@.tree.contains_key(other)) && (a@.tree.contains_key(other) ==> b@.tree[other]
        == a@.tree[other]) by {
        assert(b@.tree.dom().contains(other) <==> a@.tree.dom().contains(other));
    }
}

/// The parent chain and the children that a system gives of an actor are those of
/// the tree as it was seen.
pub proof fn law_relatives_are_those_of_the_tree(
    system: ActorSystem,
    id: ActorId,
    chain: Seq<ActorId>,
    children: Option<Vec<ActorId>>,
)
    ensures
        system.ancestry_seen(id, chain) ==> exists|t: Tree| #[trigger]
            system.tree_seen(t) && crate::tree::ordered(t) && (chain.len() == 0 <==> !(
            t.contains_key(id) && t[id].parent is Some)) && (chain.len() > 0 ==> t[id].parent
                == Some(chain[0])) && (forall|i: int|
                0 <= i < chain.len() - 1 ==> t.contains_key(#[trigger] chain[i])
                    && t[chain[i]].parent == Some(chain[i + 1])),
        system.children_seen(id, children) ==> exists|t: Tree| #[trigger]
            system.tree_seen(t) && (children is Some <==> t.contains_key(id)) && (
            children is Some ==> children->0@ == t[id].children),
{
    if system.ancestry_seen(id, chain) {
        let t = choose|t: Tree| #[trigger]
            system.tree_seen(t) && system.sound_tree(t) && chain == crate::tree::ancestry_of(
                t,
                id,
            );
        law_ancestry_follows_the_parents(t, id);
        assert(system.tree_seen(t));
    }
}

/// A message sent to a pool was offered to one of its workers, the one whose turn it
/// was.
pub proof fn law_pool_messages_reach_a_worker<Msg: Send + 'static>(
    pool: ActorPool<Msg>,
    msg: Msg,
    r: Result<(), TellError>,
)
    requires
        pool.members().len() > 0,
        pool.dispatched(msg, r),
    ensures
        exists|rotation: crate::pool::Rotation| #[trigger]
            pool.turned(rotation) && pool.members()[rotation.next as int
                % pool.members().len() as int].link().told(msg, r),
{
    let rotation = choose|rotation: crate::pool::Rotation| #[trigger]
        pool.turned(rotation) && pool.members()[rotation.slot(
            pool.members().len() as int,
        )].link().told(msg, r);
    assert(pool.turned(rotation));
}

/// An actor and its inbox belong together: what is sent through the one arrives in
/// the other, both have the same counters, which begin at nothing, whoever stops or
/// poisons the actor reaches the loop, and whoever refers to it is known there.
pub proof fn law_inbox_is_the_actors_own<Msg: Send + 'static>(
    actor: crate::actor_ref::ActorRef<Msg>,
    inbox: crate::handle::Inbox<Msg>,
    buffer: usize,
)
    requires
        inbox.serves(actor, buffer),
    ensures
        crate::outside::opened(buffer, actor.link().mailbox(), inbox.rx),
        actor.link().counters() == *inbox.stats,
        crate::outside::clock_read(inbox.stats.base()),
        inbox.stats.began_as(Activity { message_count: 0, last_activity_ms: 0, busy: false }),
        actor.token() == inbox.token,
        actor.poison_token() == inbox.poison,
        crate::outside::independent(inbox.poison),
        actor.link().lease() is Some,
        actor.link().lease()->0.holds_up(inbox.presence.watched()),
        inbox.presence.gives(actor.link().lease()->0),
        inbox.presence.own_lease() is None,
{
}

} // verus!
