use std::any::Any;
use std::future::Future;
use std::sync::atomic::{AtomicU32, Ordering};
use std::sync::{Arc, Mutex};
use std::time::Duration;

use futures_util::future::{select, Either};
use kathputli::handle::{ask_outcome, AskError, Inbox};
use kathputli::incarnation::{unreferenced, Incarnation, LoopAction, LoopEvent};
use kathputli::lifecycle::PanicPayload;
use kathputli::status::{actor_answer, list_answer};
use kathputli::status_actor::{forward_step, FeedItem, ForwardStep, StatusState};
use kathputli::supervisor::{Enrollment, Life, SpawnSite};
use kathputli::{
    ActorId, ActorNode, ActorRef, ActorSystem, Context, IdSequence, SpawnOptions, StatusMsg,
    SupervisionEvent,
};
use tokio::sync::{broadcast, mpsc, oneshot};
use tokio::time::timeout;
use tokio_util::sync::CancellationToken;

// ---------------------------------------------------------------------------
// Running supervised actors
// ---------------------------------------------------------------------------

type Ids = Arc<Mutex<IdSequence>>;

fn new_ids() -> Ids {
    Arc::new(Mutex::new(IdSequence::new()))
}

fn payload_of(panic: Box<dyn Any + Send>) -> PanicPayload {
    if let Some(s) = panic.downcast_ref::<&'static str>() {
        PanicPayload::Literal(s)
    } else if let Some(s) = panic.downcast_ref::<String>() {
        PanicPayload::Text(s.clone())
    } else {
        PanicPayload::Other
    }
}

async fn next_event<M: Send + 'static>(inbox: &mut Inbox<M>, draining: bool) -> LoopEvent<M> {
    let never = CancellationToken::new();
    let poison = if draining { &never } else { &inbox.poison };
    let taken = select(Box::pin(inbox.rx.recv()), Box::pin(inbox.presence.leases.recv()));
    match inbox.token.run_until_cancelled(poison.run_until_cancelled(taken)).await {
        None => return LoopEvent::Cancelled,
        Some(None) => return LoopEvent::Poisoned,
        Some(Some(Either::Left((Some(m), _)))) => return LoopEvent::Message(m),
        Some(Some(Either::Left((None, _)))) => return LoopEvent::Closed,
        Some(Some(Either::Right(_))) => {}
    }
    unreferenced(inbox.rx.try_recv().ok())
}

/// Run incarnations until the actor ends, then clean up.
async fn supervise<R, F>(mut life: Life, run: R)
where
    R: Fn() -> F,
    F: Future<Output = ()> + Send + 'static,
{
    loop {
        let panic = tokio::spawn(run()).await.err().map(|e| payload_of(e.into_panic()));
        if !life.after_run(panic) {
            break;
        }
    }
    life.retire();
}

fn launch<M, S, I, U, Fut>(e: Enrollment<M>, init: I, update: U) -> ActorRef<M>
where
    M: Send + 'static,
    S: Send + 'static,
    I: Fn(Context<M>) -> S + Send + Sync + 'static,
    U: Fn(S, M, Context<M>) -> Fut + Send + Sync + 'static,
    Fut: Future<Output = S> + Send,
{
    let Enrollment { actor, ctx, inbox, life, .. } = e;
    let inbox = Arc::new(tokio::sync::Mutex::new(inbox));
    let init = Arc::new(init);
    let update = Arc::new(update);
    tokio::spawn(supervise(life, move || {
        let (inbox, ctx) = (inbox.clone(), ctx.clone());
        let (init, update) = (init.clone(), update.clone());
        async move {
            let mut inbox = inbox.lock().await;
            inbox.presence.attend();
            let mut state = init(ctx.at_work(&inbox.presence));
            inbox.presence.rest();
            let mut inc = Incarnation::new();
            loop {
                let ev = next_event(&mut inbox, inc.is_draining()).await;
                match inbox.dispatch(&mut inc, ev) {
                    LoopAction::Stop => break,
                    LoopAction::Drain => inbox.rx.close(),
                    LoopAction::Handle(m) => {
                        state = update(state, m, ctx.at_work(&inbox.presence)).await;
                        inbox.done();
                    }
                }
            }
        }
    }));
    actor
}

fn launch_once<F, Fut>(e: Enrollment<()>, task: F) -> ActorRef<()>
where
    F: Fn(Context<()>) -> Fut + Send + Sync + 'static,
    Fut: Future<Output = ()> + Send,
{
    let Enrollment { actor, ctx, inbox, life, .. } = e;
    let (token, stats) = (inbox.token, inbox.stats);
    let task = Arc::new(task);
    tokio::spawn(supervise(life, move || {
        let (ctx, token, stats, task) = (ctx.clone(), token.clone(), stats.clone(), task.clone());
        async move {
            stats.record_start();
            token.run_until_cancelled(task(ctx)).await;
            stats.record_finish();
        }
    }));
    actor
}

fn enroll<M: Send + 'static>(ids: &Ids, site: SpawnSite, name: &str) -> Enrollment<M> {
    ActorSystem::enroll(&mut ids.lock().unwrap(), site, SpawnOptions::named(name.to_string()))
        .unwrap()
}

fn spawn<M, S, I, U, Fut>(
    sys: &ActorSystem,
    ids: &Ids,
    name: &str,
    init: I,
    update: U,
) -> ActorRef<M>
where
    M: Send + 'static,
    S: Send + 'static,
    I: Fn(Context<M>) -> S + Send + Sync + 'static,
    U: Fn(S, M, Context<M>) -> Fut + Send + Sync + 'static,
    Fut: Future<Output = S> + Send,
{
    launch(enroll(ids, sys.spawn_site(), name), init, update)
}

fn spawn_once<F, Fut>(sys: &ActorSystem, ids: &Ids, name: &str, task: F) -> ActorRef<()>
where
    F: Fn(Context<()>) -> Fut + Send + Sync + 'static,
    Fut: Future<Output = ()> + Send,
{
    launch_once(enroll(ids, sys.spawn_site(), name), task)
}

fn start(ids: &Ids) -> ActorSystem {
    let boot = ActorSystem::start(&mut ids.lock().unwrap());
    let mut feed = boot.feed;
    let reported = boot.system.clone();
    launch(boot.root, |_ctx| (), |s, _m: (), _ctx| async move { s });
    let status = launch(
        boot.status,
        move |_ctx| StatusState::new(reported.clone()),
        |mut st: StatusState, m: StatusMsg, _ctx| async move {
            st.handle(m);
            st
        },
    );
    tokio::spawn(async move {
        loop {
            let item = match feed.recv().await {
                Ok(ev) => FeedItem::Event(ev),
                Err(broadcast::error::RecvError::Lagged(n)) => FeedItem::Lagged(n),
                Err(broadcast::error::RecvError::Closed) => FeedItem::Closed,
            };
            match forward_step(item) {
                ForwardStep::Deliver(msg) => {
                    if status.handle().sender().send(msg).await.is_err() {
                        break;
                    }
                }
                ForwardStep::Skip => {}
                ForwardStep::Stop => break,
            }
        }
    });
    boot.system
}

async fn ask<M: Send + 'static, R>(
    actor: &ActorRef<M>,
    make: impl FnOnce(oneshot::Sender<R>) -> M,
) -> Result<R, AskError> {
    let (tx, rx) = oneshot::channel();
    let delivered = actor.handle().sender().send(make(tx)).await.is_ok();
    let reply = if delivered { rx.await.ok() } else { None };
    ask_outcome(delivered, reply)
}

async fn tree_of(sys: &ActorSystem) -> Vec<ActorNode> {
    ask(sys.status().raw(), StatusMsg::GetTree).await.unwrap()
}

async fn sleep(ms: u64) {
    tokio::time::sleep(Duration::from_millis(ms)).await;
}

fn block_on<F: Future>(f: F) -> F::Output {
    tokio::runtime::Runtime::new().unwrap().block_on(f)
}

/// Drain events until the predicate matches; give up after `ms`.
async fn wait_event<F>(
    rx: &mut broadcast::Receiver<SupervisionEvent>,
    ms: u64,
    pred: F,
) -> bool
where
    F: Fn(&SupervisionEvent) -> bool,
{
    let deadline = tokio::time::Instant::now() + Duration::from_millis(ms);
    loop {
        let remaining = deadline.saturating_duration_since(tokio::time::Instant::now());
        match timeout(remaining, rx.recv()).await {
            Ok(Ok(ev)) if pred(&ev) => return true,
            Ok(Ok(_)) => continue,
            _ => return false,
        }
    }
}

// ---------------------------------------------------------------------------
// Events
// ---------------------------------------------------------------------------

#[test]
fn emit_is_observable_by_subscribers() {
    block_on(async {
        let sys = ActorSystem::new();
        let mut rx = sys.events();
        let id = ActorId::next(&mut IdSequence::new());
        sys.emit(SupervisionEvent::Stopped { id });
        let ev = rx.recv().await.unwrap();
        assert!(matches!(ev, SupervisionEvent::Stopped { id: got } if got == id));
    });
}

#[test]
fn emitting_to_nobody_is_no_error() {
    let sys = ActorSystem::default();
    sys.emit(SupervisionEvent::Stopped { id: ActorId::next(&mut IdSequence::new()) });
    assert!(sys.events().try_recv().is_err());
}

#[test]
fn slow_subscribers_keep_the_last_events() {
    let sys = ActorSystem::new();
    let mut rx = sys.events();
    let mut ids = IdSequence::new();
    for _ in 0..257 {
        sys.emit(SupervisionEvent::Stopped { id: ActorId::next(&mut ids) });
    }
    assert!(matches!(rx.try_recv(), Err(broadcast::error::TryRecvError::Lagged(1))));
    assert!(matches!(rx.try_recv(), Ok(SupervisionEvent::Stopped { id }) if id.value() == 2));
}

// ---------------------------------------------------------------------------
// Supervised actors
// ---------------------------------------------------------------------------

#[test]
fn update_folds_state() {
    block_on(async {
        let (sys, ids) = (ActorSystem::new(), new_ids());
        let total = Arc::new(AtomicU32::new(0));
        let seen = total.clone();
        let counter: ActorRef<u32> = spawn(
            &sys,
            &ids,
            "counter",
            |_ctx| 0u32,
            move |state, msg: u32, _ctx: Context<u32>| {
                let seen = seen.clone();
                async move {
                    seen.store(state + msg, Ordering::SeqCst);
                    state + msg
                }
            },
        );
        counter.tell(1).unwrap();
        counter.tell(2).unwrap();
        counter.tell(3).unwrap();
        // Give the actor time to process
        sleep(50).await;
        // Actor is still alive (no panic, no stop)
        assert!(counter.is_alive());
        assert_eq!(total.load(Ordering::SeqCst), 6);
    });
}

#[test]
fn restarts_on_panic_then_keeps_serving() {
    block_on(async {
        let (sys, ids) = (ActorSystem::new(), new_ids());
        let mut events = sys.events();

        let actor: ActorRef<String> = spawn(
            &sys,
            &ids,
            "panicky",
            |_ctx| false, // have_panicked flag
            |panicked: bool, msg: String, _ctx: Context<String>| async move {
                if !panicked && msg == "boom" {
                    panic!("intentional test panic");
                }
                panicked || msg == "boom"
            },
        );

        // Trigger a panic
        actor.tell("boom".to_string()).unwrap();

        // Wait for Restarted event
        assert!(
            wait_event(&mut events, 1000, |e| matches!(
                e,
                SupervisionEvent::Restarted { .. }
            ))
            .await
        );

        // After restart the actor should still accept messages
        sleep(50).await;
        assert!(actor.is_alive());
        actor.tell("hello".to_string()).unwrap();
        sleep(50).await;
        assert_eq!(actor.stats().message_count, 2);
        assert!(!actor.stats().is_busy);
    });
}

#[test]
fn stops_after_max_restarts_and_escalates() {
    block_on(async {
        let (sys, ids) = (ActorSystem::new(), new_ids());
        let mut events = sys.events();

        let actor: ActorRef<()> = spawn(
            &sys,
            &ids,
            "always_panics",
            |_ctx| (),
            |_state: (), _msg: (), _ctx: Context<()>| async { panic!("always panics") },
        );

        // Exhaust all 3 restarts (4 panics: initial + 3 restarts)
        for _ in 0..4 {
            let _ = actor.tell(());
            sleep(50).await;
        }

        // Should eventually get Failed event
        assert!(
            wait_event(&mut events, 2000, |e| matches!(
                e,
                SupervisionEvent::Failed { error, .. } if error.as_ref() == "always panics"
            ))
            .await
        );

        // Actor should be marked dead after failure (token cancelled in cleanup)
        sleep(100).await;
        assert!(!actor.is_alive());
    });
}

#[test]
fn a_life_in_events() {
    block_on(async {
        let (sys, ids) = (ActorSystem::new(), new_ids());
        let mut events = sys.events();
        let actor: ActorRef<()> = spawn(
            &sys,
            &ids,
            "doomed",
            |_ctx| (),
            |_state: (), _msg: (), _ctx: Context<()>| async { panic!("{}", "formatted") },
        );
        for _ in 0..4 {
            let _ = actor.tell(());
            sleep(30).await;
        }
        sleep(50).await;
        let mut lines = Vec::new();
        while let Ok(ev) = events.try_recv() {
            lines.push(ev.describe());
        }
        assert_eq!(
            lines,
            vec![
                "Spawned { id: ActorId(1), name: \"doomed\", parent: None }",
                "Restarted { id: ActorId(1), restarts: 1 }",
                "Restarted { id: ActorId(1), restarts: 2 }",
                "Restarted { id: ActorId(1), restarts: 3 }",
                "Failed { id: ActorId(1), ancestry: [], error: \"formatted\" }",
                "Stopped { id: ActorId(1) }",
            ]
        );
    });
}

#[test]
fn supervised_poison_drains_and_stats_track() {
    enum M {
        Inc,
        Get(oneshot::Sender<u64>),
    }
    block_on(async {
        let (sys, ids) = (ActorSystem::new(), new_ids());
        let a = spawn(&sys, &ids, "p", |_ctx| 0u64, |n, m, _c| async move {
            match m {
                M::Inc => n + 1,
                M::Get(r) => {
                    let _ = r.send(n);
                    n
                }
            }
        });
        for _ in 0..3 {
            a.tell(M::Inc).unwrap();
        }
        // stats reflect handled messages
        let got = ask(&a, M::Get).await.unwrap();
        assert_eq!(got, 3);
        assert!(a.stats().message_count >= 3, "supervised stats must count messages");
        // poison drains remaining then stops
        a.tell(M::Inc).unwrap();
        a.poison();
        sleep(40).await;
        assert!(!a.is_alive(), "poison should stop the supervised actor");
        assert_eq!(a.stats().message_count, 5);
        assert!(a.tell(M::Inc).is_err());
    });
}

#[test]
fn spawn_once_runs_then_dies() {
    block_on(async {
        let (sys, ids) = (ActorSystem::new(), new_ids());
        let (tx, rx) = oneshot::channel();
        let tx = Arc::new(Mutex::new(Some(tx)));
        let actor = spawn_once(&sys, &ids, "job", move |_ctx| {
            let tx = tx.clone();
            async move {
                if let Some(sender) = tx.lock().unwrap().take() {
                    let _ = sender.send(99u32);
                }
            }
        });
        let got = rx.await.unwrap();
        assert_eq!(got, 99);
        sleep(20).await;
        assert!(!actor.is_alive(), "kamikaze actor reaped after completion");
    });
}

#[test]
fn start_brings_up_root_and_status() {
    block_on(async {
        let ids = new_ids();
        let sys = start(&ids);
        let tree = tree_of(&sys).await;
        // Forest has a single root; status actor is its child.
        assert_eq!(tree.len(), 1, "exactly one root");
        let root = &tree[0];
        assert_eq!(root.status.name, "root");
        assert!(root.children.iter().any(|c| c.status.name == "status"));
    });
}

#[test]
fn spawned_actor_appears_under_root() {
    block_on(async {
        let ids = new_ids();
        let sys = start(&ids);
        let _a = spawn(&sys, &ids, "worker", |_c| 0u8, |s, _m: (), _c| async move { s });
        sleep(20).await;
        let tree = tree_of(&sys).await;
        let root = &tree[0];
        assert!(root.children.iter().any(|c| c.status.name == "worker"));
    });
}

#[test]
fn system_shutdown_stops_everything() {
    block_on(async {
        let ids = new_ids();
        let sys = start(&ids);
        let a = spawn(&sys, &ids, "worker", |_c| 0u8, |s, _m: (), _c| async move { s });
        assert!(a.is_alive());
        sys.shutdown();
        sleep(30).await;
        assert!(!a.is_alive(), "cascade from root stops workers");
    });
}

#[test]
fn shutdown_stops_a_system_that_was_not_started() {
    block_on(async {
        let (sys, ids) = (ActorSystem::new(), new_ids());
        let a = spawn(&sys, &ids, "worker", |_c| 0u8, |s, _m: (), _c| async move { s });
        assert!(a.is_alive());
        sys.shutdown();
        sleep(30).await;
        assert!(!a.is_alive());
        assert!(sys.root_token().is_cancelled());
        assert!(sys.snapshot_forest().is_empty());
    });
}

#[test]
fn nobody_outlives_the_shutdown() {
    block_on(async {
        let ids = new_ids();
        let sys = start(&ids);
        sys.shutdown();
        sleep(30).await;
        assert!(sys.snapshot_forest().is_empty());
        // Whoever is spawned afterwards is told to stop at once.
        let late = spawn(&sys, &ids, "late", |_c| 0u8, |s, _m: (), _c| async move { s });
        assert!(!late.is_alive());
        sleep(30).await;
        assert!(sys.snapshot_forest().is_empty());
    });
}

#[test]
fn only_started_systems_have_a_status_actor() {
    assert!(!ActorSystem::new().is_started());
    assert!(!ActorSystem::default().is_started());
    let mut boot = ActorSystem::start(&mut IdSequence::new());
    assert!(boot.system.is_started());
    let first = boot.system.status();
    let second = boot.system.clone().status();
    for status in [first, second, boot.root.ctx.status()] {
        let (tx, _reply) = oneshot::channel();
        status.raw().tell(StatusMsg::GetTree(tx)).unwrap();
        assert!(matches!(boot.status.inbox.rx.try_recv(), Ok(StatusMsg::GetTree(_))));
    }
    assert_eq!(
        boot.root.announced.describe(),
        "Spawned { id: ActorId(1), name: \"root\", parent: None }"
    );
    assert_eq!(
        boot.status.announced.describe(),
        "Spawned { id: ActorId(2), name: \"status\", parent: Some(ActorId(1)) }"
    );
    // The root is not abandoned, though nobody outside keeps a reference.
    drop(boot.root.actor);
    assert!(matches!(
        boot.root.inbox.presence.leases.try_recv(),
        Err(mpsc::error::TryRecvError::Empty)
    ));
}

#[test]
fn a_supervised_actor_ends_when_nobody_refers_to_it() {
    block_on(async {
        let (sys, ids) = (ActorSystem::new(), new_ids());
        let mut events = sys.events();
        let a = spawn(&sys, &ids, "worker", |_c| 0u32, |n, _m: (), _c| async move { n + 1 });
        let id = sys.snapshot_forest()[0].status.id;
        a.tell(()).unwrap();
        let other = a.clone();
        drop(a);
        sleep(20).await;
        assert!(sys.snapshot_actor(id).is_some());
        other.tell(()).unwrap();
        drop(other);
        assert!(
            wait_event(&mut events, 1000, |e| matches!(e, SupervisionEvent::Stopped { .. })).await
        );
        assert!(sys.snapshot_actor(id).is_none());
    });
}

#[test]
fn an_actor_sends_to_itself_after_the_last_reference_is_gone() {
    block_on(async {
        let (sys, ids) = (ActorSystem::new(), new_ids());
        let mut events = sys.events();
        let seen = Arc::new(Mutex::new(Vec::new()));
        let log = seen.clone();
        let (go_tx, go_rx) = oneshot::channel::<()>();
        let go = Arc::new(Mutex::new(Some(go_rx)));
        let a = spawn(&sys, &ids, "countdown", |_c| (), move |_s, n: u32, ctx: Context<u32>| {
            let (log, go) = (log.clone(), go.lock().unwrap().take());
            async move {
                if let Some(go) = go {
                    let _ = go.await;
                }
                if n > 0 {
                    assert!(ctx.myself().tell(n - 1).is_ok());
                    let depth = ctx.system().snapshot_actor(ctx.id()).unwrap().mailbox_depth;
                    log.lock().unwrap().push((n, depth));
                } else {
                    log.lock().unwrap().push((n, 0));
                }
            }
        });
        a.tell(3).unwrap();
        drop(a);
        sleep(20).await;
        let _ = go_tx.send(());
        assert!(
            wait_event(&mut events, 1000, |e| matches!(e, SupervisionEvent::Stopped { .. })).await
        );
        assert_eq!(*seen.lock().unwrap(), vec![(3, 1), (2, 1), (1, 1), (0, 0)]);
    });
}

#[test]
fn a_reference_that_the_actor_gave_away_keeps_it() {
    block_on(async {
        let (sys, ids) = (ActorSystem::new(), new_ids());
        let (tx, mut rx) = mpsc::channel::<ActorRef<u8>>(1);
        let a = spawn(&sys, &ids, "generous", |_c| (), move |_s, _n: u8, ctx: Context<u8>| {
            let tx = tx.clone();
            async move {
                let _ = tx.try_send(ctx.myself());
            }
        });
        let id = sys.snapshot_forest()[0].status.id;
        a.tell(1).unwrap();
        drop(a);
        let given = rx.recv().await.unwrap();
        sleep(20).await;
        assert!(sys.snapshot_actor(id).is_some());
        assert!(given.is_alive());
        drop(given);
        sleep(20).await;
        assert!(sys.snapshot_actor(id).is_none());
    });
}

#[test]
fn a_context_that_a_task_keeps_keeps_the_actor() {
    block_on(async {
        let (sys, ids) = (ActorSystem::new(), new_ids());
        let seen = Arc::new(Mutex::new(Vec::new()));
        let log = seen.clone();
        let ticker = |ctx: Context<u8>| {
            tokio::spawn(async move {
                for n in 0..3 {
                    sleep(20).await;
                    assert!(ctx.myself().tell(n).is_ok());
                }
            });
        };
        let a = spawn(&sys, &ids, "ticking", ticker, move |_s, n: u8, _ctx: Context<u8>| {
            let log = log.clone();
            async move { log.lock().unwrap().push(n) }
        });
        let id = sys.snapshot_forest()[0].status.id;
        drop(a);
        sleep(30).await;
        assert!(sys.snapshot_actor(id).is_some());
        sleep(120).await;
        assert_eq!(*seen.lock().unwrap(), vec![0, 1, 2]);
        // The task is done, and nobody refers to the actor any more.
        assert!(sys.snapshot_actor(id).is_none());
    });
}

#[test]
fn whoever_hears_of_the_end_finds_the_actor_gone() {
    let sys = ActorSystem::new();
    let mut ids = IdSequence::new();
    let a: Enrollment<u8> =
        ActorSystem::enroll(&mut ids, sys.spawn_site(), SpawnOptions::named("a".into())).unwrap();
    let child = a.ctx.child_site();
    let b: Enrollment<u8> =
        ActorSystem::enroll(&mut ids, child, SpawnOptions::named("b".into())).unwrap();
    let mut events = sys.events();
    a.inbox.stats.record_start();
    let id = a.ctx.id();
    a.life.retire();
    assert!(matches!(events.try_recv(), Ok(SupervisionEvent::Stopped { id: got }) if got == id));
    assert!(sys.snapshot_actor(id).is_none());
    assert!(!a.actor.is_alive());
    assert!(!a.actor.stats().is_busy);
    assert!(b.inbox.token.is_cancelled());
    assert!(events.try_recv().is_err());
}

#[test]
fn whoever_hears_of_a_restart_finds_it_counted() {
    block_on(async {
        let (sys, ids) = (ActorSystem::new(), new_ids());
        let mut events = sys.events();
        let e: Enrollment<()> = enroll(&ids, sys.spawn_site(), "shaky");
        let (id, mut life) = (e.ctx.id(), e.life);
        e.inbox.stats.record_start();
        for n in 1..=3u32 {
            assert!(life.after_run(Some(PanicPayload::Literal("oops"))));
            let status = sys.snapshot_actor(id).unwrap();
            assert_eq!(status.restarts, n);
            assert!(!status.busy);
            assert!(status.alive);
        }
        assert!(!life.after_run(Some(PanicPayload::Literal("oops"))));
        assert_eq!(sys.snapshot_actor(id).unwrap().restarts, 4);
        let mut lines = Vec::new();
        while let Ok(ev) = events.try_recv() {
            lines.push(ev.describe());
        }
        assert_eq!(lines[1], "Restarted { id: ActorId(1), restarts: 1 }");
        assert_eq!(lines[4], "Failed { id: ActorId(1), ancestry: [], error: \"oops\" }");
    });
}

#[test]
fn a_child_leaves_its_parent_alone() {
    let (sys, ids) = (ActorSystem::new(), new_ids());
    let parent: Enrollment<()> = enroll(&ids, sys.spawn_site(), "parent");
    let child: Enrollment<()> = enroll(&ids, parent.ctx.child_site(), "child");
    let grandchild: Enrollment<()> = enroll(&ids, child.ctx.child_site(), "grandchild");
    child.actor.shutdown();
    assert!(!child.actor.is_alive());
    assert!(!grandchild.actor.is_alive());
    assert!(parent.actor.is_alive());
    child.life.retire();
    assert!(parent.actor.is_alive());
    assert!(sys.snapshot_actor(parent.ctx.id()).unwrap().alive);
    parent.actor.shutdown();
    assert!(!sys.snapshot_actor(parent.ctx.id()).unwrap().alive);
}

#[test]
fn an_unanswered_query_comes_back_empty() {
    let (sys, ids) = (ActorSystem::new(), new_ids());
    let e: Enrollment<()> = enroll(&ids, sys.spawn_site(), "a");
    let status = sys.snapshot_actor(e.ctx.id());
    assert_eq!(actor_answer(Ok(status)).unwrap().name, "a");
    assert!(actor_answer(Ok(None)).is_none());
    assert!(actor_answer(Err(AskError::ActorDead)).is_none());
    assert_eq!(list_answer(Ok(vec![1, 2])), vec![1, 2]);
    assert_eq!(list_answer::<u8>(Err(AskError::NoReply)), Vec::<u8>::new());
}

#[test]
fn a_clean_return_is_never_run_again() {
    let sys = ActorSystem::new();
    let mut ids = IdSequence::new();
    let mut a: Enrollment<u8> =
        ActorSystem::enroll(&mut ids, sys.spawn_site(), SpawnOptions::named("a".into())).unwrap();
    let id = a.ctx.id();
    assert!(!a.life.after_run(None));
    assert_eq!(sys.snapshot_actor(id).unwrap().restarts, 0);
    for n in 1..=3 {
        assert!(a.life.after_run(Some(PanicPayload::Other)));
        assert_eq!(sys.snapshot_actor(id).unwrap().restarts, n);
    }
    assert!(!a.life.after_run(Some(PanicPayload::Literal("boom"))));
}

#[test]
fn child_cascades_on_parent_shutdown() {
    block_on(async {
        let (sys, ids) = (ActorSystem::new(), new_ids());
        let (alive_tx, alive_rx) = oneshot::channel::<ActorRef<()>>();
        let alive_tx = Arc::new(Mutex::new(Some(alive_tx)));
        let child_ids = ids.clone();
        let parent = spawn(
            &sys,
            &ids,
            "parent",
            move |ctx: Context<()>| {
                // Spawn a long-lived child the first time init runs.
                let child = launch_once(
                    enroll(&child_ids, ctx.child_site(), "child"),
                    |cctx| async move {
                        cctx.token().cancelled().await; // lives until cancelled
                    },
                );
                if let Some(tx) = alive_tx.lock().unwrap().take() {
                    let _ = tx.send(child);
                }
            },
            |s, _m: (), _ctx| async move { s },
        );
        let child = alive_rx.await.unwrap();
        assert!(child.is_alive());
        parent.shutdown(); // cancels parent token, child token (descendant) cancels
        sleep(20).await;
        assert!(!child.is_alive(), "child must cascade-stop with parent");
    });
}

#[test]
fn status_records_lifecycle_events() {
    block_on(async {
        let ids = new_ids();
        let sys = start(&ids);
        // Spawn then shut down a worker; both events should reach the log.
        let a = spawn(&sys, &ids, "ephemeral", |_c| 0u8, |s, _m: (), _c| async move { s });
        a.shutdown();
        sleep(40).await;
        let log = ask(sys.status().raw(), StatusMsg::RecentEvents).await.unwrap();
        assert!(log.iter().any(|e| e.contains("Spawned") && e.contains("ephemeral")));
        assert!(log.iter().any(|e| e.contains("Stopped")));
    });
}

#[test]
fn no_zombie_after_stop() {
    fn find(nodes: &[ActorNode], name: &str) -> Option<ActorId> {
        for n in nodes {
            if n.status.name == name {
                return Some(n.status.id);
            }
            if let Some(id) = find(&n.children, name) {
                return Some(id);
            }
        }
        None
    }
    block_on(async {
        let ids = new_ids();
        let sys = start(&ids);
        let a = spawn(&sys, &ids, "temp", |_c| 0u8, |s, _m: (), _c| async move { s });
        // Find the worker id via the tree.
        let id = find(&tree_of(&sys).await, "temp").expect("worker present");
        let status = sys.status();
        let found = ask(status.raw(), |reply| StatusMsg::GetActor(id, reply)).await.unwrap();
        assert_eq!(found.unwrap().name, "temp");
        a.shutdown();
        sleep(30).await;
        let gone = ask(status.raw(), |reply| StatusMsg::GetActor(id, reply)).await.unwrap();
        assert!(gone.is_none(), "entry must be reaped");
    });
}

#[test]
fn one_for_one_isolation() {
    enum AMsg {
        Boom,
    }
    block_on(async {
        let ids = new_ids();
        let sys = start(&ids);
        let sib_inits = Arc::new(AtomicU32::new(0));

        // Sibling B: counts its init calls (should stay at 1: never restarts).
        let b_inits = sib_inits.clone();
        let _b = spawn(
            &sys,
            &ids,
            "sibling-b",
            move |_c| {
                b_inits.fetch_add(1, Ordering::SeqCst);
                0u64
            },
            |s, _m: (), _c| async move { s },
        );

        // Sibling A: panics on demand.
        let a = spawn(
            &sys,
            &ids,
            "sibling-a",
            |_c| 0u64,
            |_s: u64, m: AMsg, _c| async move {
                match m {
                    AMsg::Boom => panic!("a down"),
                }
            },
        );
        a.tell(AMsg::Boom).unwrap();
        sleep(30).await;

        assert_eq!(sib_inits.load(Ordering::SeqCst), 1, "sibling B never restarted");
        let tree = tree_of(&sys).await;
        for c in &tree[0].children {
            let want = if c.status.name == "sibling-a" { 1 } else { 0 };
            assert_eq!(c.status.restarts, want);
        }
    });
}

#[test]
fn spawn_once_panics_then_restarts_then_escalates() {
    block_on(async {
        let (sys, ids) = (ActorSystem::new(), new_ids());
        let mut events = sys.events();

        // A kamikaze actor that panics every time: it should exhaust max_restarts (3),
        // then emit Failed and die.
        let run_count = Arc::new(AtomicU32::new(0));
        let rc = run_count.clone();
        let a = spawn_once(&sys, &ids, "panicky-once", move |_ctx| {
            let rc = rc.clone();
            async move {
                rc.fetch_add(1, Ordering::SeqCst);
                panic!("always panics");
            }
        });

        // Wait for the Failed event (exhausted 3 restarts + initial = 4 runs).
        assert!(
            wait_event(&mut events, 3000, |e| matches!(
                e,
                SupervisionEvent::Failed { .. }
            ))
            .await,
            "should emit Failed after exhausting max_restarts"
        );

        sleep(50).await;
        assert!(!a.is_alive(), "spawn_once must die after escalation");
        // Ran at least initial + max_restarts = 4 times
        assert!(run_count.load(Ordering::SeqCst) >= 4);
    });
}

#[test]
fn mailbox_preserved_across_restart() {
    enum M {
        Boom,
        Inc,
        Get(oneshot::Sender<u64>),
    }
    block_on(async {
        let ids = new_ids();
        let sys = start(&ids);
        let a = spawn(
            &sys,
            &ids,
            "preserve",
            |_c| 0u64,
            |count, m, _c| async move {
                match m {
                    M::Boom => panic!("kaboom"),
                    M::Inc => count + 1,
                    M::Get(reply) => {
                        let _ = reply.send(count);
                        count
                    }
                }
            },
        );
        // Queue Boom then several Incs back-to-back. Boom is handled (panic,
        // restart); the buffered Incs must survive and be handled by the new
        // incarnation.
        a.tell(M::Boom).unwrap();
        for _ in 0..4 {
            a.tell(M::Inc).unwrap();
        }
        sleep(40).await;
        let got = ask(&a, M::Get).await.unwrap();
        assert_eq!(got, 4, "buffered Incs survived the restart");
    });
}

#[test]
fn a_context_knows_its_actor() {
    let sys = ActorSystem::new();
    let mut ids = IdSequence::new();
    let parent: Enrollment<u8> =
        ActorSystem::enroll(&mut ids, sys.spawn_site(), SpawnOptions::named("parent".into()))
            .unwrap();
    assert_eq!(parent.ctx.id().value(), 1);
    assert_eq!(parent.ctx.name(), "parent");
    assert_eq!(parent.ctx.parent_id(), None);
    assert!(!parent.ctx.system().is_started());
    let mut child: Enrollment<u8> = ActorSystem::enroll(
        &mut ids,
        parent.ctx.child_site(),
        SpawnOptions::named("child".into()),
    )
    .unwrap();
    assert_eq!(child.ctx.parent_id(), Some(parent.ctx.id()));
    assert_eq!(
        child.announced.describe(),
        "Spawned { id: ActorId(2), name: \"child\", parent: Some(ActorId(1)) }"
    );
    child.ctx.clone().myself().tell(5).unwrap();
    assert_eq!(child.inbox.rx.try_recv().unwrap(), 5);
    assert_eq!(sys.children(parent.ctx.id()), Some(vec![child.ctx.id()]));
    assert_eq!(child.ctx.system().ancestry(child.ctx.id()), vec![parent.ctx.id()]);

    child.actor.poison();
    assert!(child.inbox.poison.is_cancelled());
    assert!(!child.inbox.token.is_cancelled());

    parent.actor.shutdown();
    assert!(child.inbox.token.is_cancelled());

    let gone = child.life.retire();
    assert_eq!(gone.describe(), "Stopped { id: ActorId(2) }");
    assert_eq!(sys.children(parent.ctx.id()), Some(vec![]));
}

// ---------------------------------------------------------------------------
// Status actor
// ---------------------------------------------------------------------------

#[test]
fn the_log_keeps_the_last_256_events() {
    let mut ids = IdSequence::new();
    let mut st = StatusState::new(ActorSystem::new());
    assert!(st.recent_events().is_empty());
    for _ in 0..300 {
        st.handle(StatusMsg::Event(SupervisionEvent::Stopped { id: ActorId::next(&mut ids) }));
    }
    let (tx, mut rx) = oneshot::channel();
    st.handle(StatusMsg::RecentEvents(tx));
    let log = rx.try_recv().unwrap();
    assert_eq!(log.len(), 256);
    assert_eq!(log[0], "Stopped { id: ActorId(45) }");
    assert_eq!(log[255], "Stopped { id: ActorId(300) }");
}

#[test]
fn queries_are_answered_from_the_live_tree() {
    let sys = ActorSystem::new();
    let mut ids = IdSequence::new();
    let mut st = StatusState::new(sys.clone());
    let late: Enrollment<u8> =
        ActorSystem::enroll(&mut ids, sys.spawn_site(), SpawnOptions::named("late".into()))
            .unwrap();
    let id = late.ctx.id();

    let (tx, mut rx) = oneshot::channel();
    st.handle(StatusMsg::GetTree(tx));
    let tree = rx.try_recv().unwrap();
    assert_eq!(tree.len(), 1);
    assert_eq!(tree[0].status.name, "late");

    let (tx, mut rx) = oneshot::channel();
    st.handle(StatusMsg::GetActor(id, tx));
    assert_eq!(rx.try_recv().unwrap().unwrap().id, id);

    // Nobody waits any more: no error.
    let (tx, rx) = oneshot::channel();
    drop(rx);
    st.handle(StatusMsg::GetActor(id, tx));
}

#[test]
fn the_forwarder_passes_over_what_it_missed() {
    let id = ActorId::next(&mut IdSequence::new());
    let step = forward_step(FeedItem::Event(SupervisionEvent::Stopped { id }));
    assert!(matches!(
        step,
        ForwardStep::Deliver(StatusMsg::Event(SupervisionEvent::Stopped { .. }))
    ));
    assert!(matches!(forward_step(FeedItem::Lagged(3)), ForwardStep::Skip));
    assert!(matches!(forward_step(FeedItem::Closed), ForwardStep::Stop));
}
