use std::future::Future;
use std::time::{Duration, Instant};

use kathputli::handle::open_inbox;
use kathputli::stats::{duration_of, millis_of, Activity, ActorStats, Moment};
use kathputli::{ActorRef, ActorStatsSnapshot};
use tokio::sync::oneshot;

// ---------------------------------------------------------------------------
// Test actor: replies to Ping, sleeps on Slow (to keep messages queued)
// ---------------------------------------------------------------------------

enum WorkerMsg {
    Ping(oneshot::Sender<()>),
    Slow,
}

fn spawn(buffer: usize) -> ActorRef<WorkerMsg> {
    let (actor, mut inbox) = open_inbox(buffer);
    tokio::spawn(async move {
        while let Some(Some(m)) = inbox.token.run_until_cancelled(inbox.rx.recv()).await {
            inbox.stats.record_start();
            match m {
                WorkerMsg::Ping(reply) => {
                    let _ = reply.send(());
                }
                WorkerMsg::Slow => tokio::time::sleep(Duration::from_millis(50)).await,
            }
            inbox.stats.record_finish();
        }
    });
    actor
}

async fn ping(actor: &ActorRef<WorkerMsg>) {
    let (tx, rx) = oneshot::channel();
    assert!(actor.handle().sender().send(WorkerMsg::Ping(tx)).await.is_ok());
    rx.await.expect("ping handled");
}

fn block_on<F: Future>(f: F) -> F::Output {
    tokio::runtime::Runtime::new().unwrap().block_on(f)
}

// ---------------------------------------------------------------------------
// ActorRef::stats
// ---------------------------------------------------------------------------

#[test]
fn stats_start_idle() {
    block_on(async {
        let actor = spawn(16);
        let stats = actor.stats();
        assert_eq!(stats.message_count, 0);
        assert_eq!(stats.mailbox_depth, 0);
        assert!(stats.last_activity.is_none());
        assert!(stats.idle_for().is_none());
    });
}

#[test]
fn stats_counts_handled_messages() {
    block_on(async {
        let actor = spawn(16);
        for _ in 0..5 {
            ping(&actor).await;
        }
        let stats = actor.stats();
        assert_eq!(stats.message_count, 5);
        assert!(stats.last_activity.is_some());
        assert!(stats.idle_for().is_some());
    });
}

#[test]
fn stats_reports_mailbox_depth() {
    block_on(async {
        let actor = spawn(16);
        // Fire several slow messages without awaiting; the actor can only handle
        // one at a time, so the rest pile up in the mailbox.
        for _ in 0..5 {
            actor.tell(WorkerMsg::Slow).expect("enqueued");
        }
        let depth = actor.stats().mailbox_depth;
        assert!(depth >= 1, "expected queued messages, got depth {depth}");
        assert!(depth <= 5, "depth {depth} exceeds messages sent");
    });
}

#[test]
fn stats_busy_is_false_when_idle() {
    block_on(async {
        let actor = spawn(16);
        // No message in flight: not busy.
        assert!(!actor.stats().is_busy);
    });
}

#[test]
fn stats_busy_true_while_handling() {
    block_on(async {
        let actor = spawn(16);
        actor.tell(WorkerMsg::Slow).expect("enqueued"); // 50ms handler
        // Give the loop a moment to dequeue and start handling.
        tokio::time::sleep(Duration::from_millis(10)).await;
        assert!(actor.stats().is_busy, "actor should be busy mid-handle");
        // After the slow handler finishes it goes idle again.
        tokio::time::sleep(Duration::from_millis(60)).await;
        assert!(!actor.stats().is_busy, "actor should be idle after handling");
    });
}

// ---------------------------------------------------------------------------
// Counters on given times
// ---------------------------------------------------------------------------

#[test]
fn a_message_counts_from_its_start() {
    let base = Instant::now();
    let mut a = Activity::new();
    let s = a.snapshot(base, 0);
    assert_eq!((s.message_count, s.mailbox_depth, s.is_busy), (0, 0, false));
    assert!(s.last_activity.is_none());

    a.record_start(250);
    let s = a.snapshot(base, 4);
    assert_eq!((s.message_count, s.mailbox_depth, s.is_busy), (1, 4, true));
    assert_eq!(s.last_activity.unwrap().offset_ms, 250);

    a.record_finish();
    let s = a.snapshot(base, 3);
    assert_eq!((s.message_count, s.mailbox_depth, s.is_busy), (1, 3, false));
    assert_eq!(s.last_activity.unwrap().offset_ms, 250);
    a.record_finish();
    assert!(!a.snapshot(base, 3).is_busy);

    a.record_start(900);
    a.record_finish();
    let s = a.snapshot(base, 0);
    assert_eq!(s.message_count, 2);
    assert_eq!(s.last_activity.unwrap().offset_ms, 900);
}

#[test]
fn a_message_in_the_first_millisecond_counts_as_activity() {
    let base = Instant::now();
    let mut a = Activity::new();
    a.record_start(0);
    assert_eq!(a.snapshot(base, 0).last_activity.unwrap().offset_ms, 1);
}

#[test]
fn idle_time_is_what_lies_between() {
    let nanos = Duration::from_nanos;
    let last = Moment { base: Instant::now(), offset_ms: 40 };
    assert_eq!(last.elapsed_at(nanos(40_000_000)), Duration::ZERO);
    assert_eq!(last.elapsed_at(nanos(100_000_007)), nanos(60_000_007));
    assert_eq!(last.elapsed_at(nanos(39_999_999)), Duration::ZERO);
    assert_eq!(last.elapsed_at(Duration::MAX), Duration::MAX - Duration::from_millis(40));
    let s = ActorStatsSnapshot {
        message_count: 1,
        mailbox_depth: 0,
        last_activity: Some(last),
        is_busy: false,
    };
    assert_eq!(s.idle_at(nanos(100_000_007)), Some(nanos(60_000_007)));
    let never = ActorStatsSnapshot { message_count: 0, last_activity: None, ..s };
    assert_eq!(never.idle_at(nanos(100_000_007)), None);
    assert_eq!(never.idle_for(), None);
}

#[test]
fn milliseconds_are_whole() {
    assert_eq!(millis_of(Duration::ZERO), 0);
    assert_eq!(millis_of(Duration::from_nanos(999_999)), 0);
    assert_eq!(millis_of(Duration::from_nanos(1_000_000)), 1);
    assert_eq!(millis_of(Duration::from_nanos(1_234_567_890)), 1234);
    // Beyond 64 bits the count starts over, as a cast has it.
    assert_eq!(millis_of(Duration::MAX), Duration::MAX.as_millis() as u64);
}

#[test]
fn durations_are_made_of_nanoseconds() {
    assert_eq!(duration_of(0), Duration::ZERO);
    assert_eq!(duration_of(999_999_999), Duration::from_nanos(999_999_999));
    assert_eq!(duration_of(3_000_000_007), Duration::new(3, 7));
    assert_eq!(duration_of(Duration::MAX.as_nanos()), Duration::MAX);
}

#[test]
fn shared_counters_follow_the_clock() {
    block_on(async {
        let stats = ActorStats::default();
        assert_eq!(stats.snapshot(2).mailbox_depth, 2);
        stats.record_start();
        assert!(stats.snapshot(0).is_busy);
        stats.record_finish();
        tokio::time::sleep(Duration::from_millis(30)).await;
        let s = stats.snapshot(0);
        assert!(!s.is_busy);
        assert_eq!(s.message_count, 1);
        let idle = s.idle_for().unwrap();
        assert!(idle >= Duration::from_millis(28), "idle for {idle:?}");
        assert!(idle < Duration::from_secs(10), "idle for {idle:?}");
        stats.record_start();
        assert!(stats.snapshot(0).last_activity.unwrap().offset_ms >= 30);
    });
}
