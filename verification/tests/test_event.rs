use std::sync::Arc;

use kathputli::text::append_decimal;
use kathputli::{ActorId, IdSequence, SupervisionEvent};

fn all_kinds(name: &str) -> Vec<SupervisionEvent> {
    let mut ids = IdSequence::new();
    let a = ActorId::next(&mut ids);
    let b = ActorId::next(&mut ids);
    let c = ActorId::next(&mut ids);
    vec![
        SupervisionEvent::Spawned { id: a, name: Arc::from(name), parent: None },
        SupervisionEvent::Spawned { id: b, name: Arc::from(name), parent: Some(a) },
        SupervisionEvent::Restarted { id: b, restarts: 3 },
        SupervisionEvent::Failed { id: c, ancestry: vec![], error: Arc::from(name) },
        SupervisionEvent::Failed { id: c, ancestry: vec![b], error: Arc::from(name) },
        SupervisionEvent::Failed { id: c, ancestry: vec![b, a], error: Arc::from(name) },
        SupervisionEvent::Stopped { id: b },
    ]
}

#[test]
fn descriptions_read_like_debug_output() {
    for name in ["worker", "", "two words", "a \"quoted\" \\ name\n", "käthe"] {
        for ev in all_kinds(name) {
            assert_eq!(ev.describe(), format!("{:?}", ev));
        }
    }
}

#[test]
fn descriptions_are_what_they_are() {
    let evs = all_kinds("worker");
    assert_eq!(
        evs[1].describe(),
        "Spawned { id: ActorId(2), name: \"worker\", parent: Some(ActorId(1)) }"
    );
    assert_eq!(evs[2].describe(), "Restarted { id: ActorId(2), restarts: 3 }");
    assert_eq!(
        evs[5].describe(),
        "Failed { id: ActorId(3), ancestry: [ActorId(2), ActorId(1)], error: \"worker\" }"
    );
    assert_eq!(evs[6].describe(), "Stopped { id: ActorId(2) }");
}

#[test]
fn clones_say_the_same() {
    for ev in all_kinds("worker") {
        assert_eq!(ev.clone().describe(), ev.describe());
    }
}

#[test]
fn numbers_are_written_in_decimal() {
    for n in [0u64, 7, 9, 10, 99, 100, 1_234_567_890, u64::MAX] {
        let mut s = String::from("n=");
        append_decimal(&mut s, n);
        assert_eq!(s, format!("n={}", n));
    }
}
