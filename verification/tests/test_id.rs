use kathputli::{ActorId, IdSequence};

#[test]
fn ids_are_unique_and_increasing() {
    let mut ids = IdSequence::new();
    let a = ActorId::next(&mut ids);
    let b = ActorId::next(&mut ids);
    assert_ne!(a, b);
    assert!(b.value() > a.value());
}

#[test]
fn ids_start_at_one_and_count_up() {
    let mut ids = IdSequence::default();
    assert_eq!(ids.upcoming(), 1);
    let values: Vec<u64> = (0..5).map(|_| ActorId::next(&mut ids).value()).collect();
    assert_eq!(values, vec![1, 2, 3, 4, 5]);
    assert_eq!(ids.upcoming(), 6);
}

#[test]
fn id_is_shown_with_a_hash() {
    let mut ids = IdSequence::new();
    assert_eq!(ActorId::next(&mut ids).to_string(), "#1");
    for _ in 0..40 {
        ActorId::next(&mut ids);
    }
    assert_eq!(ActorId::next(&mut ids).to_string(), "#42");
    for _ in 0..967 {
        ActorId::next(&mut ids);
    }
    assert_eq!(ActorId::next(&mut ids).to_string(), "#1010");
}
