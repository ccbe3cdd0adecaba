use std::future::Future;

use kathputli::handle::{
    ask_outcome, depth_of, open_inbox, tell_outcome, AskError, Inbox, TellError,
};
use kathputli::incarnation::{Incarnation, LoopAction, LoopEvent};
use kathputli::outside::SendFailure;
use kathputli::{ActorHandle, ActorRef, Envelope};
use tokio::sync::{mpsc, oneshot};
use tokio_util::sync::CancellationToken;

// ---------------------------------------------------------------------------
// Test actor: simple counter
// ---------------------------------------------------------------------------

enum CounterMsg {
    Inc,
    Get(oneshot::Sender<u32>),
}

async fn next_event<M: Send + 'static>(inbox: &mut Inbox<M>, draining: bool) -> LoopEvent<M> {
    let never = CancellationToken::new();
    let poison = if draining { &never } else { &inbox.poison };
    let taken = poison.run_until_cancelled(inbox.rx.recv());
    match inbox.token.run_until_cancelled(taken).await {
        None => LoopEvent::Cancelled,
        Some(None) => LoopEvent::Poisoned,
        Some(Some(Some(m))) => LoopEvent::Message(m),
        Some(Some(None)) => LoopEvent::Closed,
    }
}

fn spawn_counter(initial: u32) -> ActorRef<CounterMsg> {
    let (actor, mut inbox) = open_inbox(64);
    tokio::spawn(async move {
        let mut count = initial;
        let mut inc = Incarnation::new();
        loop {
            let ev = next_event(&mut inbox, inc.is_draining()).await;
            match inbox.dispatch(&mut inc, ev) {
                LoopAction::Stop => break,
                LoopAction::Drain => inbox.rx.close(),
                LoopAction::Handle(m) => {
                    match m {
                        CounterMsg::Inc => count += 1,
                        CounterMsg::Get(tx) => {
                            let _ = tx.send(count);
                        }
                    }
                    inbox.done();
                }
            }
        }
    });
    actor
}

async fn ask(handle: &ActorHandle<CounterMsg>) -> Result<u32, AskError> {
    let (tx, rx) = oneshot::channel();
    let delivered = handle.sender().send(CounterMsg::Get(tx)).await.is_ok();
    let reply = if delivered { rx.await.ok() } else { None };
    ask_outcome(delivered, reply)
}

/// Collects every pushed number in arrival order.
enum CollectorMsg {
    Push(u32),
    Get(oneshot::Sender<Vec<u32>>),
}

fn spawn_collector(initial: Vec<u32>, buffer: usize) -> ActorRef<CollectorMsg> {
    let (actor, mut inbox) = open_inbox(buffer);
    tokio::spawn(async move {
        let mut items = initial;
        let mut inc = Incarnation::new();
        loop {
            let ev = next_event(&mut inbox, inc.is_draining()).await;
            match inbox.dispatch(&mut inc, ev) {
                LoopAction::Stop => break,
                LoopAction::Drain => inbox.rx.close(),
                LoopAction::Handle(m) => {
                    match m {
                        CollectorMsg::Push(v) => items.push(v),
                        CollectorMsg::Get(tx) => {
                            let _ = tx.send(items.clone());
                        }
                    }
                    inbox.done();
                }
            }
        }
    });
    actor
}

async fn collected(actor: &ActorRef<CollectorMsg>) -> Vec<u32> {
    let (tx, rx) = oneshot::channel();
    let delivered = actor.handle().sender().send(CollectorMsg::Get(tx)).await.is_ok();
    let reply = if delivered { rx.await.ok() } else { None };
    ask_outcome(delivered, reply).unwrap()
}

fn block_on<F: Future>(f: F) -> F::Output {
    tokio::runtime::Runtime::new().unwrap().block_on(f)
}

async fn sleep(ms: u64) {
    tokio::time::sleep(std::time::Duration::from_millis(ms)).await;
}

// ---------------------------------------------------------------------------
// Tests
// ---------------------------------------------------------------------------

#[test]
fn tell_reaches_actor() {
    block_on(async {
        let actor_ref = spawn_counter(0);
        for _ in 0..10 {
            actor_ref.tell(CounterMsg::Inc).unwrap();
        }
        // ask to flush: the reply only arrives after all earlier tells are processed
        let count = ask(actor_ref.handle()).await.unwrap();
        assert_eq!(count, 10);
    });
}

#[test]
fn ask_returns_correct_reply() {
    block_on(async {
        let actor_ref = spawn_counter(42);
        let count = ask(actor_ref.handle()).await.unwrap();
        assert_eq!(count, 42);
    });
}

#[test]
fn shutdown_stops_processing() {
    block_on(async {
        let actor_ref = spawn_counter(0);

        // Confirm alive
        assert!(actor_ref.is_alive());

        actor_ref.shutdown();

        // is_alive immediately reflects cancellation
        assert!(!actor_ref.is_alive());

        // Give the loop a moment to exit
        sleep(20).await;
        assert!(!actor_ref.is_alive());
    });
}

#[test]
fn dead_actor_tell_returns_error() {
    block_on(async {
        let actor_ref = spawn_counter(0);

        // Shut down the actor: token is cancelled, loop exits, receiver is dropped
        actor_ref.shutdown();

        // Give the task time to process the cancellation and exit
        sleep(20).await;

        let result = actor_ref.tell(CounterMsg::Inc);
        assert!(result.is_err(), "expected error after actor loop exited");
        assert_eq!(result, Err(TellError::ActorGone));
    });
}

#[test]
fn handle_clone_communicates_independently() {
    block_on(async {
        let actor_ref = spawn_counter(0);
        let handle = actor_ref.handle().clone();

        // Increment via handle clone
        handle.tell(CounterMsg::Inc).unwrap();
        handle.tell(CounterMsg::Inc).unwrap();

        // Query via actor_ref
        let count = ask(actor_ref.handle()).await.unwrap();
        assert_eq!(count, 2);
    });
}

#[test]
fn asking_a_dead_actor_is_an_error() {
    block_on(async {
        let actor_ref = spawn_counter(0);
        actor_ref.shutdown();
        sleep(20).await;
        assert_eq!(ask(actor_ref.handle()).await, Err(AskError::ActorDead));
    });
}

#[test]
fn dropping_every_reference_ends_the_actor() {
    block_on(async {
        let (actor_ref, mut inbox) = open_inbox::<u8>(4);
        let handle = actor_ref.handle().clone();
        let ended = tokio::spawn(async move {
            let mut handled = 0;
            let mut inc = Incarnation::new();
            loop {
                let ev = next_event(&mut inbox, inc.is_draining()).await;
                match inc.step(ev) {
                    LoopAction::Stop => return handled,
                    LoopAction::Drain => inbox.rx.close(),
                    LoopAction::Handle(_) => handled += 1,
                }
            }
        });
        drop(actor_ref);
        handle.tell(1).unwrap();
        handle.tell(2).unwrap();
        assert!(!ended.is_finished());
        drop(handle);
        assert_eq!(ended.await.unwrap(), 2);
    });
}

#[test]
fn a_poisoned_actor_drains_and_stops() {
    block_on(async {
        let r = spawn_counter(0);
        r.tell(CounterMsg::Inc).unwrap();
        r.tell(CounterMsg::Inc).unwrap();
        r.poison();
        sleep(20).await;
        assert_eq!(r.stats().message_count, 2);
        assert!(r.tell(CounterMsg::Inc).is_err());
    });
}

#[test]
fn prop_messages_processed_in_order() {
    let mut seed: u32 = 7;
    for len in 0..50 {
        let msgs: Vec<u32> = (0..len)
            .map(|_| {
                seed = seed.wrapping_mul(1_664_525).wrapping_add(1_013_904_223);
                (seed >> 8) % 1000
            })
            .collect();
        block_on(async {
            let actor_ref = spawn_collector(Vec::new(), 64);
            for &v in &msgs {
                actor_ref.tell(CollectorMsg::Push(v)).unwrap();
            }
            assert_eq!(collected(&actor_ref).await, msgs);
        });
    }
}

#[test]
fn prop_all_messages_delivered_before_shutdown() {
    for n in 1usize..=100 {
        block_on(async {
            let actor_ref = spawn_collector(Vec::new(), 256);
            for i in 0..n {
                actor_ref.tell(CollectorMsg::Push(i as u32)).unwrap();
            }
            // Flush: the question arrives after all messages before it in the mailbox.
            let received = collected(&actor_ref).await;
            assert!(
                received.len() <= n,
                "processed {} but sent only {}",
                received.len(),
                n
            );
            assert_eq!(received.len(), n);
        });
    }
}

#[test]
fn prop_ask_idempotent() {
    for initial in (0u32..10_000).step_by(97) {
        block_on(async {
            let actor_ref = spawn_collector(vec![initial], 8);
            let r1 = collected(&actor_ref).await;
            let r2 = collected(&actor_ref).await;
            assert_eq!(r1, r2);
            assert_eq!(r1, vec![initial]);
        });
    }
}

#[test]
fn leases_tell_whether_anybody_refers_to_the_actor() {
    let (actor, mut inbox) = open_inbox::<u8>(4);
    let gone = |inbox: &mut Inbox<u8>| {
        matches!(inbox.presence.leases.try_recv(), Err(mpsc::error::TryRecvError::Disconnected))
    };
    let handle = actor.handle().clone();
    drop(actor);
    assert!(!gone(&mut inbox));
    drop(handle);
    assert!(gone(&mut inbox));
    // At work the actor holds a lease itself, and gives out more.
    assert!(inbox.presence.lease().is_none());
    inbox.presence.attend();
    assert!(!gone(&mut inbox));
    inbox.presence.attend();
    let kept = inbox.presence.lease();
    assert!(kept.is_some());
    inbox.presence.rest();
    assert!(!gone(&mut inbox));
    drop(kept);
    assert!(gone(&mut inbox));
}

#[test]
fn a_message_taken_out_is_recorded_as_started() {
    let (actor, mut inbox) = open_inbox::<u8>(4);
    let mut inc = Incarnation::new();
    for n in 0..3 {
        actor.tell(n).unwrap();
    }
    for taken in 1..=3u64 {
        let ev = LoopEvent::Message(inbox.rx.try_recv().unwrap());
        assert!(matches!(inbox.dispatch(&mut inc, ev), LoopAction::Handle(_)));
        // Counted or waiting: all that was accepted.
        let s = actor.stats();
        assert!(s.is_busy);
        assert_eq!(s.message_count, taken);
        assert_eq!(s.message_count + s.mailbox_depth as u64, 3);
        inbox.done();
        assert!(!actor.stats().is_busy);
    }
    assert!(matches!(inbox.dispatch(&mut inc, LoopEvent::Poisoned), LoopAction::Drain));
    assert!(inc.is_draining());
    assert!(matches!(inbox.dispatch(&mut inc, LoopEvent::Closed), LoopAction::Stop));
    assert_eq!(actor.stats().message_count, 3);
}

#[test]
fn a_full_mailbox_refuses_and_a_closed_one_too() {
    let (actor, mut inbox) = open_inbox::<u8>(2);
    assert_eq!(actor.tell(1), Ok(()));
    assert_eq!(actor.tell(2), Ok(()));
    assert_eq!(actor.tell(3), Err(TellError::MailboxFull));
    assert_eq!(actor.stats().mailbox_depth, 2);
    assert_eq!(inbox.rx.try_recv().unwrap(), 1);
    assert_eq!(actor.tell(4), Ok(()));
    inbox.rx.close();
    assert_eq!(actor.tell(5), Err(TellError::ActorGone));
    assert_eq!(inbox.rx.try_recv().unwrap(), 2);
    assert_eq!(inbox.rx.try_recv().unwrap(), 4);
    assert!(inbox.rx.try_recv().is_err());
}

#[test]
fn tell_errors_speak_like_the_channel() {
    let (tx, rx) = mpsc::channel::<u8>(1);
    tx.try_send(1).unwrap();
    let full = tx.try_send(2).unwrap_err();
    assert_eq!(TellError::MailboxFull.message(), format!("actor mailbox error: {full}"));
    drop(rx);
    let closed = tx.try_send(3).unwrap_err();
    assert_eq!(TellError::ActorGone.message(), format!("actor mailbox error: {closed}"));
}

#[test]
fn ask_errors_have_their_words() {
    assert_eq!(AskError::ActorDead.message(), "actor is dead — cannot send message");
    assert_eq!(AskError::NoReply.message(), "actor dropped reply sender without responding");
}

#[test]
fn outcomes_follow_the_answers() {
    assert_eq!(tell_outcome::<u8>(Ok(())), Ok(()));
    assert_eq!(tell_outcome(Err(SendFailure::Full(1u8))), Err(TellError::MailboxFull));
    assert_eq!(tell_outcome(Err(SendFailure::Closed(1u8))), Err(TellError::ActorGone));
    assert_eq!(ask_outcome::<u8>(false, None), Err(AskError::ActorDead));
    assert_eq!(ask_outcome(false, Some(1u8)), Err(AskError::ActorDead));
    assert_eq!(ask_outcome::<u8>(true, None), Err(AskError::NoReply));
    assert_eq!(ask_outcome(true, Some(1u8)), Ok(1));
}

#[test]
fn depth_is_what_is_not_free() {
    assert_eq!(depth_of(16, 16), 0);
    assert_eq!(depth_of(16, 11), 5);
    assert_eq!(depth_of(16, 0), 16);
    assert_eq!(depth_of(16, 17), 0);
}

#[test]
fn poison_leaves_the_token_alone() {
    let (actor, inbox) = open_inbox::<u8>(2);
    actor.poison();
    assert!(actor.is_alive());
    assert!(inbox.poison.is_cancelled());
    assert!(!inbox.token.is_cancelled());
    let other = actor.clone();
    other.shutdown();
    assert!(!actor.is_alive());
    assert!(inbox.token.is_cancelled());
}

#[test]
fn a_child_token_stops_with_the_actor() {
    let (actor, _inbox) = open_inbox::<u8>(2);
    let child = actor.child_token();
    assert!(!child.is_cancelled());
    actor.shutdown();
    assert!(child.is_cancelled());
    assert!(actor.child_token().is_cancelled());
}

#[test]
fn an_envelope_keeps_request_and_reply_together() {
    let (tx, mut rx) = oneshot::channel();
    let e = Envelope::new("request", tx);
    assert_eq!(e.req, "request");
    e.reply.send(5).unwrap();
    assert_eq!(rx.try_recv().unwrap(), 5);
}
