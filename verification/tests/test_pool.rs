use std::future::Future;

use kathputli::handle::{open_inbox, TellError};
use kathputli::pool::Rotation;
use kathputli::{ActorPool, ActorRef};
use tokio::sync::oneshot;

// ---------------------------------------------------------------------------
// Test actor: per-worker message counter
// ---------------------------------------------------------------------------

enum CounterMsg {
    Inc,
    Get(oneshot::Sender<u32>),
}

fn spawn_counter(buffer: usize) -> ActorRef<CounterMsg> {
    let (actor, mut inbox) = open_inbox(buffer);
    tokio::spawn(async move {
        let mut count = 0u32;
        while let Some(Some(m)) = inbox.token.run_until_cancelled(inbox.rx.recv()).await {
            match m {
                CounterMsg::Inc => count += 1,
                CounterMsg::Get(tx) => {
                    let _ = tx.send(count);
                }
            }
        }
    });
    actor
}

async fn get(worker: &ActorRef<CounterMsg>) -> u32 {
    let (tx, rx) = oneshot::channel();
    assert!(worker.handle().sender().send(CounterMsg::Get(tx)).await.is_ok());
    rx.await.unwrap()
}

fn block_on<F: Future>(f: F) -> F::Output {
    tokio::runtime::Runtime::new().unwrap().block_on(f)
}

// ---------------------------------------------------------------------------
// Tests
// ---------------------------------------------------------------------------

#[test]
fn pool_size_matches_construction() {
    block_on(async {
        let pool: ActorPool<CounterMsg> = ActorPool::new(5, |_| spawn_counter(16));
        assert_eq!(pool.size(), 5);
    });
}

#[test]
fn pool_routes_round_robin() {
    const WORKERS: usize = 3;
    const PER_WORKER: u32 = 3;
    block_on(async {
        let pool: ActorPool<CounterMsg> = ActorPool::new(WORKERS, |_| spawn_counter(32));

        // Send WORKERS * PER_WORKER messages: round-robin assigns PER_WORKER to each worker
        for _ in 0..(WORKERS as u32 * PER_WORKER) {
            pool.tell(CounterMsg::Inc).unwrap();
        }

        // Ask each worker for its individual count
        for worker in pool.workers() {
            let count = get(worker).await;
            assert_eq!(
                count, PER_WORKER,
                "each worker should receive exactly {PER_WORKER} messages"
            );
        }
    });
}

#[test]
fn pool_shutdown_all_stops_all_workers() {
    block_on(async {
        let pool: ActorPool<CounterMsg> = ActorPool::new(3, |_| spawn_counter(16));

        pool.shutdown_all();

        for worker in pool.workers() {
            assert!(!worker.is_alive());
        }
    });
}

#[test]
fn pool_workers_accessor_returns_all() {
    block_on(async {
        let pool: ActorPool<CounterMsg> = ActorPool::new(4, |_| spawn_counter(8));
        assert_eq!(pool.workers().len(), 4);
    });
}

#[test]
fn prop_pool_distributes_evenly() {
    const POOL_SIZE: usize = 3;
    for per_worker in 1u32..=30 {
        block_on(async {
            let pool: ActorPool<CounterMsg> = ActorPool::new(POOL_SIZE, |_| spawn_counter(64));
            let total = per_worker * POOL_SIZE as u32;
            for _ in 0..total {
                pool.tell(CounterMsg::Inc).unwrap();
            }
            for worker in pool.workers() {
                assert_eq!(get(worker).await, per_worker);
            }
        });
    }
}

// ---------------------------------------------------------------------------
// ActorPool health
// ---------------------------------------------------------------------------

#[test]
fn pool_all_alive_on_start() {
    block_on(async {
        let pool: ActorPool<CounterMsg> = ActorPool::new(4, |_| spawn_counter(16));
        assert_eq!(pool.alive_count(), 4);
        assert_eq!(pool.dead_workers(), 0);
    });
}

#[test]
fn pool_tracks_partial_shutdown() {
    block_on(async {
        let pool: ActorPool<CounterMsg> = ActorPool::new(3, |_| spawn_counter(16));
        pool.workers()[0].shutdown();
        assert_eq!(pool.alive_count(), 2);
        assert_eq!(pool.dead_workers(), 1);
    });
}

#[test]
fn pool_all_dead_after_shutdown_all() {
    block_on(async {
        let pool: ActorPool<CounterMsg> = ActorPool::new(4, |_| spawn_counter(16));
        pool.shutdown_all();
        assert_eq!(pool.alive_count(), 0);
        assert_eq!(pool.dead_workers(), 4);
    });
}

#[test]
fn pool_serves_its_workers_in_turn() {
    // No task takes anything out of these mailboxes.
    let (a, mut in_a) = open_inbox::<u32>(2);
    let (b, mut in_b) = open_inbox::<u32>(2);
    let refs = std::cell::RefCell::new(vec![b, a]);
    let pool = ActorPool::new(2, |_| refs.borrow_mut().pop().unwrap());
    for n in 1..=4 {
        assert_eq!(pool.tell(n), Ok(()));
    }
    // A full worker is not passed over.
    assert_eq!(pool.tell(5), Err(TellError::MailboxFull));
    assert_eq!(in_b.rx.try_recv().unwrap(), 2);
    assert_eq!(pool.tell(6), Ok(()));
    assert_eq!(in_a.rx.try_recv().unwrap(), 1);
    assert_eq!(in_a.rx.try_recv().unwrap(), 3);
    assert_eq!(in_b.rx.try_recv().unwrap(), 4);
    assert_eq!(in_b.rx.try_recv().unwrap(), 6);
    in_a.rx.close();
    assert_eq!(pool.tell(7), Err(TellError::ActorGone));
}

#[test]
fn every_worker_is_made_by_a_call_of_its_own() {
    let made = std::cell::RefCell::new(Vec::new());
    let inboxes = std::cell::RefCell::new(Vec::new());
    let pool = ActorPool::new(3, |i| {
        made.borrow_mut().push(i);
        let (actor, inbox) = open_inbox::<u32>(1);
        inboxes.borrow_mut().push(inbox);
        actor
    });
    assert_eq!(*made.borrow(), vec![0, 1, 2]);
    // Stopping one worker leaves the others alone, and each has a mailbox of its own.
    pool.workers()[1].shutdown();
    let stopped: Vec<bool> =
        inboxes.borrow().iter().map(|inbox| inbox.token.is_cancelled()).collect();
    assert_eq!(stopped, vec![false, true, false]);
    for n in 0..3 {
        assert_eq!(pool.tell(n), Ok(()));
    }
    for (n, inbox) in inboxes.borrow_mut().iter_mut().enumerate() {
        assert_eq!(inbox.rx.try_recv().unwrap(), n as u32);
        assert!(inbox.rx.try_recv().is_err());
    }
}

#[test]
fn tickets_go_round() {
    let mut r = Rotation::new();
    let slots: Vec<usize> = (0..7).map(|_| r.draw(3)).collect();
    assert_eq!(slots, vec![0, 1, 2, 0, 1, 2, 0]);
    assert_eq!(r.next, 7);
    let mut last = Rotation { next: usize::MAX };
    assert_eq!(last.draw(2), 1);
    assert_eq!(last.next, 0);
    assert_eq!(last.draw(2), 0);
}
