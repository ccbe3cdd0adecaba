use kathputli::incarnation::{unreferenced, Incarnation, LoopAction, LoopEvent};

/// Feed events to a fresh loop: the messages it handles, how often it closes its
/// mailbox, and whether it leaves.
fn run(events: Vec<LoopEvent<u32>>) -> (Vec<u32>, usize, bool) {
    let mut inc = Incarnation::new();
    let mut handled = Vec::new();
    let mut drains = 0;
    for ev in events {
        match inc.step(ev) {
            LoopAction::Stop => return (handled, drains, true),
            LoopAction::Drain => {
                assert!(inc.is_draining());
                drains += 1;
            }
            LoopAction::Handle(m) => handled.push(m),
        }
    }
    (handled, drains, false)
}

#[test]
fn messages_are_handled_in_order() {
    let events = vec![1, 2, 3].into_iter().map(LoopEvent::Message).collect();
    assert_eq!(run(events), (vec![1, 2, 3], 0, false));
}

#[test]
fn cancellation_ends_the_loop_before_later_messages() {
    let events = vec![LoopEvent::Message(1), LoopEvent::Cancelled, LoopEvent::Message(2)];
    assert_eq!(run(events), (vec![1], 0, true));
}

#[test]
fn poison_drains_what_is_queued() {
    let events = vec![
        LoopEvent::Message(1),
        LoopEvent::Poisoned,
        LoopEvent::Message(2),
        LoopEvent::Message(3),
        LoopEvent::Closed,
        LoopEvent::Message(4),
    ];
    assert_eq!(run(events), (vec![1, 2, 3], 1, true));
}

#[test]
fn a_closed_mailbox_ends_the_loop() {
    assert_eq!(run(vec![LoopEvent::Closed]), (vec![], 0, true));
    assert_eq!(run(vec![LoopEvent::Message(1), LoopEvent::Abandoned]), (vec![1], 0, true));
    assert_eq!(run(vec![unreferenced(Some(2)), unreferenced(None)]), (vec![2], 0, true));
}

#[test]
fn a_new_incarnation_does_not_drain() {
    let mut inc = Incarnation::new();
    assert!(!inc.is_draining());
    inc.step(LoopEvent::<u32>::Poisoned);
    assert!(inc.is_draining());
    inc.step(LoopEvent::Message(1u32));
    assert!(inc.is_draining());
    assert!(!Incarnation::new().is_draining());
}
