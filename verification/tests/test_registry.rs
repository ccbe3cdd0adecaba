use std::future::Future;
use std::sync::atomic::{AtomicUsize, Ordering};
use std::sync::Arc;
use std::time::{Duration, Instant};

use kathputli::handle::open_inbox;
use kathputli::registry::Observation;
use kathputli::stats::Moment;
use kathputli::{ActorHandle, ActorRegistry, ActorStatsSnapshot};
use tokio::sync::{oneshot, RwLock};

// ---------------------------------------------------------------------------
// Minimal actor for registry tests
// ---------------------------------------------------------------------------

enum NoopMsg {
    Ping(oneshot::Sender<()>),
    /// Blocks the handler until the embedded receiver resolves. Lets a test pin
    /// an actor in the busy state for a deterministic window.
    Block(oneshot::Receiver<()>),
}

fn spawn_noop() -> ActorHandle<NoopMsg> {
    let (actor, mut inbox) = open_inbox(8);
    tokio::spawn(async move {
        while let Some(Some(m)) = inbox.token.run_until_cancelled(inbox.rx.recv()).await {
            inbox.stats.record_start();
            match m {
                NoopMsg::Ping(tx) => {
                    let _ = tx.send(());
                }
                NoopMsg::Block(rx) => {
                    let _ = rx.await;
                }
            }
            inbox.stats.record_finish();
        }
    });
    actor.handle().clone()
}

async fn ping(handle: ActorHandle<NoopMsg>) {
    let (tx, rx) = oneshot::channel();
    assert!(handle.sender().send(NoopMsg::Ping(tx)).await.is_ok());
    rx.await.unwrap();
}

async fn sleep(ms: u64) {
    tokio::time::sleep(Duration::from_millis(ms)).await;
}

fn block_on<F: Future>(f: F) -> F::Output {
    tokio::runtime::Runtime::new().unwrap().block_on(f)
}

// ---------------------------------------------------------------------------
// Tests
// ---------------------------------------------------------------------------

#[test]
fn get_or_insert_creates_and_caches() {
    block_on(async {
        let mut registry: ActorRegistry<NoopMsg> = ActorRegistry::new();

        let h1 = registry.get_or_insert_with("actor-1".into(), spawn_noop);
        let h2 = registry.get_or_insert_with("actor-1".into(), spawn_noop);

        // Both must refer to the same actor
        ping(h1.clone()).await;
        ping(h2).await;
        assert_eq!(h1.stats().message_count, 2);
        assert_eq!(registry.len(), 1);
    });
}

#[test]
fn a_registered_child_leaves_the_factory_alone() {
    let (a, mut inbox) = open_inbox::<u8>(2);
    let mut registry: ActorRegistry<u8> = ActorRegistry::new();
    registry.insert("x".into(), a.handle().clone());
    let h = registry.get_or_insert_with("x".into(), || unreachable!("there is one"));
    h.tell(7).unwrap();
    assert_eq!(inbox.rx.try_recv().unwrap(), 7);
    assert_eq!(registry.len(), 1);
}

#[test]
fn everybody_who_asks_gets_the_one_that_was_made() {
    let mut registry: ActorRegistry<u8> = ActorRegistry::new();
    let mut inboxes = Vec::new();
    let mut handles = Vec::new();
    for _ in 0..20 {
        handles.push(registry.get_or_insert_with("x".into(), || {
            let (a, inbox) = open_inbox::<u8>(32);
            inboxes.push(inbox);
            a.handle().clone()
        }));
    }
    assert_eq!(inboxes.len(), 1);
    for (n, h) in handles.iter().enumerate() {
        h.tell(n as u8).unwrap();
        assert_eq!(inboxes[0].rx.try_recv().unwrap(), n as u8);
    }
}

#[test]
fn get_returns_none_for_missing_key() {
    let registry: ActorRegistry<NoopMsg> = ActorRegistry::new();
    let result = registry.get("missing");
    assert!(result.is_none());
}

#[test]
fn remove_clears_entry() {
    block_on(async {
        let mut registry: ActorRegistry<NoopMsg> = ActorRegistry::new();

        registry.insert("actor-x".into(), spawn_noop());

        assert!(registry.get("actor-x").is_some());

        registry.remove("actor-x");

        assert!(registry.get("actor-x").is_none());
    });
}

#[test]
fn concurrent_get_or_insert_creates_only_once() {
    block_on(async {
        let registry = Arc::new(RwLock::new(ActorRegistry::<NoopMsg>::new()));
        let create_count = Arc::new(AtomicUsize::new(0));

        let tasks: Vec<_> = (0..20)
            .map(|_| {
                let reg = registry.clone();
                let count = create_count.clone();
                tokio::spawn(async move {
                    reg.write().await.get_or_insert_with("shared-actor".into(), || {
                        count.fetch_add(1, Ordering::SeqCst);
                        spawn_noop()
                    })
                })
            })
            .collect();

        for task in tasks {
            task.await.unwrap();
        }

        assert_eq!(
            create_count.load(Ordering::SeqCst),
            1,
            "factory must be called exactly once regardless of concurrency"
        );
    });
}

#[test]
fn inserting_again_replaces() {
    let (a, _in_a) = open_inbox::<u8>(2);
    let (b, mut in_b) = open_inbox::<u8>(2);
    let mut registry: ActorRegistry<u8> = ActorRegistry::default();
    registry.insert("x".into(), a.handle().clone());
    registry.insert("x".into(), b.handle().clone());
    assert_eq!(registry.len(), 1);
    registry.get("x").unwrap().tell(9).unwrap();
    assert_eq!(in_b.rx.try_recv().unwrap(), 9);
    registry.remove("y");
    assert_eq!(registry.len(), 1);
}

// ---------------------------------------------------------------------------
// Inspection
// ---------------------------------------------------------------------------

#[test]
fn len_is_empty_and_contains_reflect_state() {
    block_on(async {
        let mut registry: ActorRegistry<NoopMsg> = ActorRegistry::new();

        assert_eq!(registry.len(), 0);
        assert!(registry.is_empty());
        assert!(!registry.contains("a"));

        registry.insert("a".into(), spawn_noop());

        assert_eq!(registry.len(), 1);
        assert!(!registry.is_empty());
        assert!(registry.contains("a"));
        assert!(!registry.contains("b"));
    });
}

#[test]
fn ids_and_snapshot_reflect_inserts() {
    block_on(async {
        let mut registry: ActorRegistry<NoopMsg> = ActorRegistry::new();
        registry.insert("a".into(), spawn_noop());
        registry.insert("b".into(), spawn_noop());

        let mut ids = registry.ids();
        ids.sort();
        assert_eq!(ids, vec!["a".to_string(), "b".to_string()]);

        let snapshot = registry.snapshot();
        assert_eq!(snapshot.len(), 2);
        let mut snap_ids: Vec<String> = snapshot.into_iter().map(|(id, _)| id).collect();
        snap_ids.sort();
        assert_eq!(snap_ids, vec!["a".to_string(), "b".to_string()]);
    });
}

// ---------------------------------------------------------------------------
// idle_for
// ---------------------------------------------------------------------------

#[test]
fn idle_for_is_none_for_missing_and_freshly_spawned() {
    block_on(async {
        let mut registry: ActorRegistry<NoopMsg> = ActorRegistry::new();

        // Absent entry.
        assert!(registry.idle_for("missing").is_none());

        // Freshly spawned, never handled a message: conservatively unknown.
        registry.insert("fresh".into(), spawn_noop());
        assert!(registry.idle_for("fresh").is_none());
    });
}

#[test]
fn idle_for_is_some_after_handling_a_message() {
    block_on(async {
        let mut registry: ActorRegistry<NoopMsg> = ActorRegistry::new();
        registry.insert("a".into(), spawn_noop());

        ping(registry.get("a").unwrap()).await;

        assert!(registry.idle_for("a").is_some());
    });
}

// ---------------------------------------------------------------------------
// evict_idle
// ---------------------------------------------------------------------------

#[test]
fn evict_idle_removes_actor_idle_past_ttl() {
    block_on(async {
        let mut registry: ActorRegistry<NoopMsg> = ActorRegistry::new();
        registry.insert("idle".into(), spawn_noop());

        // Handle one message so the actor has a last-activity timestamp.
        ping(registry.get("idle").unwrap()).await;

        sleep(80).await;

        let evicted = registry.evict_idle(Duration::from_millis(40));

        assert_eq!(evicted, vec!["idle".to_string()]);
        assert!(!registry.contains("idle"));
        assert!(registry.is_empty());
    });
}

#[test]
fn evict_idle_keeps_busy_queued_and_recent() {
    block_on(async {
        let mut registry: ActorRegistry<NoopMsg> = ActorRegistry::new();
        for id in ["idle", "busy", "queued", "recent"] {
            registry.insert(id.into(), spawn_noop());
        }

        // idle: handle a message, then let it age past the TTL below.
        ping(registry.get("idle").unwrap()).await;

        // busy: pin it inside its handler for the whole test.
        let (busy_tx, busy_rx) = oneshot::channel();
        registry.get("busy").unwrap().tell(NoopMsg::Block(busy_rx)).unwrap();

        // queued: one message in flight (busy) plus one waiting in the mailbox.
        let (q_tx, q_rx) = oneshot::channel();
        let (q_tx2, q_rx2) = oneshot::channel();
        let queued = registry.get("queued").unwrap();
        queued.tell(NoopMsg::Block(q_rx)).unwrap();
        queued.tell(NoopMsg::Block(q_rx2)).unwrap();

        // Let busy/queued actually enter their handlers, and let idle age.
        sleep(80).await;

        // recent: handled a message just now, well within the TTL.
        ping(registry.get("recent").unwrap()).await;

        // Sanity: queued really does have a waiting message.
        assert_eq!(
            registry.get("queued").unwrap().stats().mailbox_depth,
            1,
            "queued actor should have one message waiting in its mailbox"
        );

        let evicted = registry.evict_idle(Duration::from_millis(40));

        assert_eq!(evicted, vec!["idle".to_string()]);
        assert!(!registry.contains("idle"));
        assert!(registry.contains("busy"));
        assert!(registry.contains("queued"));
        assert!(registry.contains("recent"));

        // Release the pinned actors so their tasks can exit cleanly.
        let _ = busy_tx.send(());
        let _ = q_tx.send(());
        let _ = q_tx2.send(());
    });
}

#[test]
fn snapshot_reflects_post_eviction_state() {
    block_on(async {
        let mut registry: ActorRegistry<NoopMsg> = ActorRegistry::new();
        registry.insert("keep".into(), spawn_noop());
        registry.insert("drop".into(), spawn_noop());

        ping(registry.get("drop").unwrap()).await;

        sleep(80).await;

        let evicted = registry.evict_idle(Duration::from_millis(40));
        assert_eq!(evicted, vec!["drop".to_string()]);

        let snap_ids: Vec<String> = registry.snapshot().into_iter().map(|(id, _)| id).collect();
        assert_eq!(snap_ids, vec!["keep".to_string()]);
    });
}

fn seen(busy: bool, depth: usize, idle: Option<u64>) -> Observation {
    Observation {
        snapshot: ActorStatsSnapshot {
            message_count: 1,
            mailbox_depth: depth,
            last_activity: idle.map(|_| Moment { base: Instant::now(), offset_ms: 1 }),
            is_busy: busy,
        },
        idle: idle.map(Duration::from_nanos),
    }
}

#[test]
fn only_the_idle_are_evictable() {
    assert!(seen(false, 0, Some(40)).is_evictable(Duration::from_nanos(40)));
    assert!(seen(false, 0, Some(41)).is_evictable(Duration::from_nanos(40)));
    assert!(!seen(false, 0, Some(39)).is_evictable(Duration::from_nanos(40)));
    assert!(!seen(true, 0, Some(40)).is_evictable(Duration::from_nanos(40)));
    assert!(!seen(false, 1, Some(40)).is_evictable(Duration::from_nanos(40)));
    assert!(!seen(false, 0, None).is_evictable(Duration::from_nanos(0)));
    assert!(seen(false, 0, Some(0)).is_evictable(Duration::from_nanos(0)));
}

#[test]
fn eviction_follows_what_was_seen() {
    let (a, _inbox) = open_inbox::<u8>(2);
    let mut registry: ActorRegistry<u8> = ActorRegistry::new();
    for id in ["a", "b", "c", "d"] {
        registry.insert(id.into(), a.handle().clone());
    }
    assert_eq!(registry.observe().len(), 4);
    let sightings = vec![
        ("a".to_string(), seen(false, 0, Some(100))),
        ("b".to_string(), seen(false, 0, Some(10))),
        ("c".to_string(), seen(false, 0, Some(50))),
        ("d".to_string(), seen(true, 0, Some(100))),
        ("gone".to_string(), seen(false, 0, Some(100))),
    ];
    let evicted = registry.evict(&sightings, Duration::from_nanos(50));
    assert_eq!(evicted, vec!["a".to_string(), "c".to_string(), "gone".to_string()]);
    let mut left = registry.ids();
    left.sort();
    assert_eq!(left, vec!["b".to_string(), "d".to_string()]);
}
