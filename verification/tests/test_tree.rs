use std::sync::Arc;

use kathputli::handle::MailboxProbe;
use kathputli::roster::{fresh_number, Roster};
use kathputli::stats::ActorStats;
use kathputli::tree::{SupervisedEntry, SupervisionTree};
use kathputli::{ActorId, ActorNode, IdSequence};
use tokio::sync::mpsc;
use tokio_util::sync::CancellationToken;

fn entry(name: &str, parent: Option<ActorId>) -> SupervisedEntry {
    SupervisedEntry {
        name: Arc::from(name),
        parent,
        children: Vec::new(),
        token: CancellationToken::new(),
        stats: Arc::new(ActorStats::new()),
        restarts: 0,
        depth_probe: Box::new(MailboxProbe::new(mpsc::channel::<()>(1).0)),
    }
}

/// root with the children a and b; c below b.
fn family(ids: &mut IdSequence) -> (SupervisionTree, [ActorId; 4]) {
    let root = ActorId::next(ids);
    let a = ActorId::next(ids);
    let b = ActorId::next(ids);
    let c = ActorId::next(ids);
    let mut tree = SupervisionTree::new();
    tree.register(root, entry("root", None));
    tree.register(a, entry("a", Some(root)));
    tree.register(b, entry("b", Some(root)));
    tree.register(c, entry("c", Some(b)));
    (tree, [root, a, b, c])
}

fn names(nodes: &[ActorNode]) -> Vec<String> {
    nodes.iter().map(|n| n.status.name.clone()).collect()
}

#[test]
fn register_links_parent_and_child() {
    let mut tree = SupervisionTree::new();
    let mut ids = IdSequence::new();
    let p = ActorId::next(&mut ids);
    let c = ActorId::next(&mut ids);
    tree.register(p, entry("parent", None));
    tree.register(c, entry("child", Some(p)));

    assert!(tree.children(p).unwrap().contains(&c));
    assert_eq!(tree.ancestry(c), vec![p]);
}

#[test]
fn deregister_removes_entry_and_unlinks_parent() {
    let mut tree = SupervisionTree::new();
    let mut ids = IdSequence::new();
    let p = ActorId::next(&mut ids);
    let c = ActorId::next(&mut ids);
    tree.register(p, entry("parent", None));
    tree.register(c, entry("child", Some(p)));
    tree.deregister(c);

    assert!(!tree.contains(c));
    assert!(!tree.children(p).unwrap().contains(&c));
}

#[test]
fn whoever_enters_is_the_youngest() {
    let mut roster = Roster::new();
    let mut ids = IdSequence::new();
    let a = roster.enter(&mut ids, entry("a", None)).unwrap();
    let b = roster.enter(&mut ids, entry("b", Some(a))).unwrap();
    assert_eq!((a.value(), b.value()), (1, 2));
    roster.leave(b);
    assert!(!roster.tree().contains(b));
    assert_eq!(roster.tree().children(a), Some(vec![]));

    // An id never returns, not even from another sequence.
    let mut other = IdSequence::new();
    let c = roster.enter(&mut other, entry("c", None)).unwrap();
    assert_eq!(c.value(), 3);
    assert_eq!(other.upcoming(), 4);
    roster.note_restarts(c, 2);
    assert_eq!(roster.tree().snapshot_actor(c).unwrap().restarts, 2);
}

#[test]
fn fresh_numbers_are_above_the_youngest_and_the_parent() {
    let mut ids = IdSequence::new();
    ids.advance_to(9);
    let nine = ActorId::next(&mut ids);
    assert_eq!(fresh_number(5, None, None), Some(5));
    assert_eq!(fresh_number(5, Some(4), None), Some(5));
    assert_eq!(fresh_number(5, Some(5), None), Some(6));
    assert_eq!(fresh_number(5, Some(5), Some(nine)), Some(10));
    assert_eq!(fresh_number(20, Some(5), Some(nine)), Some(20));
    assert_eq!(fresh_number(0, Some(u64::MAX), None), None);
    assert_eq!(fresh_number(u64::MAX, Some(u64::MAX - 1), None), Some(u64::MAX));
}

#[test]
fn who_left_the_roster_never_comes_back() {
    let mut roster = Roster::new();
    let mut ids = IdSequence::new();
    let a = roster.enter(&mut ids, entry("a", None)).unwrap();
    let b = roster.enter(&mut ids, entry("b", Some(a))).unwrap();
    roster.leave(b);
    // A sequence that starts over does not bring the number back.
    let mut again = IdSequence::new();
    for _ in 0..5 {
        let c = roster.enter(&mut again, entry("c", Some(a))).unwrap();
        roster.note_restarts(b, 1);
        roster.leave(b);
        assert!(c != b);
        assert!(!roster.tree().contains(b));
        assert!(!roster.tree().children(a).unwrap().contains(&b));
    }
}

#[test]
fn a_roster_without_numbers_left_lets_nobody_in() {
    let mut roster = Roster::new();
    let mut ids = IdSequence::new();
    ids.advance_to(u64::MAX);
    let last = roster.enter(&mut ids, entry("last", None)).unwrap();
    assert_eq!(last.value(), u64::MAX);
    assert_eq!(ids.upcoming(), 0);
    assert!(roster.enter(&mut ids, entry("late", None)).is_none());
    assert_eq!(ids.upcoming(), 0);
    assert_eq!(roster.tree().roots(), vec![last]);
}

#[test]
fn registering_lists_children_in_order() {
    let mut ids = IdSequence::new();
    let (tree, [root, a, b, c]) = family(&mut ids);
    assert_eq!(tree.children(root), Some(vec![a, b]));
    assert_eq!(tree.children(a), Some(vec![]));
    assert_eq!(tree.children(b), Some(vec![c]));
    assert_eq!(tree.children(ActorId::next(&mut ids)), None);
    assert_eq!(tree.parent(c), Some(b));
    assert_eq!(tree.parent(root), None);
    assert_eq!(tree.roots(), vec![root]);
}

#[test]
fn ancestry_is_nearest_first() {
    let mut ids = IdSequence::new();
    let (tree, [root, a, b, c]) = family(&mut ids);
    assert_eq!(tree.ancestry(c), vec![b, root]);
    assert_eq!(tree.ancestry(a), vec![root]);
    assert_eq!(tree.ancestry(root), vec![]);
    assert_eq!(tree.ancestry(ActorId::next(&mut ids)), vec![]);
}

#[test]
fn ancestry_ends_with_a_parent_that_is_gone() {
    let mut ids = IdSequence::new();
    let (mut tree, [_, _, b, c]) = family(&mut ids);
    tree.deregister(b);
    assert_eq!(tree.ancestry(c), vec![b]);
    assert!(!tree.contains(b));
    assert!(tree.contains(c));
}

#[test]
fn deregistering_undoes_registering() {
    let mut ids = IdSequence::new();
    let (mut tree, [root, a, b, _]) = family(&mut ids);
    let extra = ActorId::next(&mut ids);
    tree.register(extra, entry("extra", Some(root)));
    assert_eq!(tree.children(root), Some(vec![a, b, extra]));
    tree.deregister(extra);
    assert_eq!(tree.children(root), Some(vec![a, b]));
    assert!(!tree.contains(extra));
    tree.deregister(extra);
    assert_eq!(tree.children(root), Some(vec![a, b]));
}

#[test]
fn a_restart_touches_one_actor_only() {
    let mut ids = IdSequence::new();
    let (mut tree, [root, a, b, _]) = family(&mut ids);
    tree.note_restarts(a, 2);
    assert_eq!(tree.snapshot_actor(a).unwrap().restarts, 2);
    assert_eq!(tree.snapshot_actor(b).unwrap().restarts, 0);
    assert_eq!(tree.snapshot_actor(root).unwrap().restarts, 0);
    assert_eq!(tree.children(root), Some(vec![a, b]));
}

#[test]
fn the_forest_shows_every_actor_once() {
    let mut ids = IdSequence::new();
    let (mut tree, [root, a, b, c]) = family(&mut ids);
    let lone = ActorId::next(&mut ids);
    tree.register(lone, entry("lone", None));
    let mut forest = tree.snapshot_forest();
    forest.sort_by_key(|n| n.status.id.value());
    assert_eq!(names(&forest), vec!["root", "lone"]);
    assert_eq!(names(&forest[0].children), vec!["a", "b"]);
    assert_eq!(names(&forest[0].children[1].children), vec!["c"]);
    assert!(forest[1].children.is_empty());
    assert_eq!(forest[0].status.id, root);
    assert_eq!(forest[0].children[0].status.id, a);
    assert_eq!(forest[0].children[1].children[0].status.parent, Some(b));
    assert_eq!(forest[0].children[1].children[0].status.id, c);
    let copy = forest[0].clone();
    assert_eq!(names(&copy.children), vec!["a", "b"]);
    assert_eq!(names(&copy.children[1].children), vec!["c"]);
}

#[test]
fn a_status_shows_what_can_be_read_of_the_actor() {
    let mut ids = IdSequence::new();
    let id = ActorId::next(&mut ids);
    let mut tree = SupervisionTree::new();
    let mut e = entry("worker", None);
    let (tx, mut rx) = mpsc::channel(16);
    for n in 0..7 {
        tx.try_send(n).unwrap();
    }
    e.depth_probe = Box::new(MailboxProbe::new(tx));
    let stats = e.stats.clone();
    let token = e.token.clone();
    tree.register(id, e);

    let s = tree.snapshot_actor(id).unwrap();
    assert_eq!(s.id, id);
    assert_eq!(s.name, "worker");
    assert_eq!(s.parent, None);
    assert_eq!(s.mailbox_depth, 7);
    assert_eq!(s.message_count, 0);
    assert_eq!(s.restarts, 0);
    assert!(s.alive);
    assert!(!s.busy);
    assert_eq!(s.idle_ms, None);

    stats.record_start();
    token.cancel();
    let s = tree.snapshot_actor(id).unwrap();
    assert_eq!(s.message_count, 1);
    assert!(!s.alive);
    assert!(s.busy);
    assert!(s.idle_ms.is_some());
    assert_eq!(s.clone().message_count, 1);

    assert_eq!(rx.try_recv().unwrap(), 0);
    assert_eq!(tree.snapshot_actor(id).unwrap().mailbox_depth, 6);

    assert!(tree.snapshot_actor(ActorId::next(&mut ids)).is_none());
}

#[test]
fn tokens_of_registered_actors_can_be_had() {
    let mut ids = IdSequence::new();
    let (tree, [root, ..]) = family(&mut ids);
    let token = tree.token(root).unwrap();
    assert!(!token.is_cancelled());
    token.cancel();
    assert!(!tree.snapshot_actor(root).unwrap().alive);
    assert!(tree.token(ActorId::next(&mut ids)).is_none());
}
