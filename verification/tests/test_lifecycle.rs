use std::any::Any;
use std::sync::Arc;

use kathputli::lifecycle::{panic_message, PanicPayload, Supervision, Verdict};
use kathputli::{ActorId, IdSequence, SpawnOptions, SupervisionEvent};

fn payload_of(panic: Box<dyn Any + Send>) -> PanicPayload {
    if let Some(s) = panic.downcast_ref::<&'static str>() {
        PanicPayload::Literal(s)
    } else if let Some(s) = panic.downcast_ref::<String>() {
        PanicPayload::Text(s.clone())
    } else {
        PanicPayload::Other
    }
}

#[test]
fn panic_message_str_variant() {
    // &str panic (most common)
    let panic: Box<dyn Any + Send> = Box::new("oops");
    assert_eq!(panic_message(payload_of(panic)).as_ref(), "oops");
}

#[test]
fn panic_message_string_variant() {
    // String panic (less common but must be handled)
    let panic: Box<dyn Any + Send> = Box::new(String::from("string panic"));
    assert_eq!(panic_message(payload_of(panic)).as_ref(), "string panic");
}

#[test]
fn panic_message_unknown_variant() {
    // Non-string panic payload falls back to "panic"
    let panic: Box<dyn Any + Send> = Box::new(42u64);
    assert_eq!(panic_message(payload_of(panic)).as_ref(), "panic");
}

#[test]
fn defaults_allow_three_restarts_and_sixteen_messages() {
    let opts = SpawnOptions::default();
    assert_eq!(opts.name, "");
    assert_eq!(opts.max_restarts, 3);
    assert_eq!(opts.buffer, 16);
    let named = SpawnOptions::named("worker".to_string());
    assert_eq!(named.name, "worker");
    assert_eq!(named.max_restarts, 3);
    assert_eq!(named.buffer, 16);
    let copy = named.clone();
    assert_eq!(copy.name, "worker");
}

fn restarts_of(ev: &SupervisionEvent) -> Option<u32> {
    match ev {
        SupervisionEvent::Restarted { restarts, .. } => Some(*restarts),
        _ => None,
    }
}

#[test]
fn restarts_are_numbered_and_the_fourth_panic_is_the_last() {
    let mut ids = IdSequence::new();
    let parent = ActorId::next(&mut ids);
    let id = ActorId::next(&mut ids);
    let mut s = Supervision::new(id, 3);
    for n in 1..=3 {
        assert!(!s.is_exhausted());
        let (verdict, ev) = s.panicked(Vec::new(), Arc::from("boom"));
        assert_eq!(verdict, Verdict::Restart);
        assert_eq!(restarts_of(&ev), Some(n));
    }
    assert!(s.is_exhausted());
    let (verdict, ev) = s.panicked(vec![parent], Arc::from("boom"));
    assert_eq!(verdict, Verdict::GiveUp);
    match ev {
        SupervisionEvent::Failed { id: got, ancestry, error } => {
            assert_eq!(got, id);
            assert_eq!(ancestry, vec![parent]);
            assert_eq!(error.as_ref(), "boom");
        }
        _ => panic!("expected Failed"),
    }
    assert_eq!(s.restarts, 4);
}

#[test]
fn without_restarts_the_first_panic_is_the_last() {
    let mut ids = IdSequence::new();
    let mut s = Supervision::new(ActorId::next(&mut ids), 0);
    assert!(s.is_exhausted());
    let (verdict, _) = s.panicked(Vec::new(), Arc::from("boom"));
    assert_eq!(verdict, Verdict::GiveUp);
}
