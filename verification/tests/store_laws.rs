use dialogue_bot::codec::decode_state;
use dialogue_bot::codec::encode_state;
use dialogue_bot::dialogue::DialogueHandle;
use dialogue_bot::store::StateStore;
use dialogue_bot::State;

#[test]
fn default_state_without_prior_update() {
    let store = StateStore::new();
    let handle = DialogueHandle::new(99);
    assert_eq!(store.get(99), None);
    assert_eq!(handle.current(&store), State::Start);
}

#[test]
fn update_then_current_round_trips() {
    let states = [State::Start, State::GotNumber(0), State::GotNumber(-1), State::GotNumber(
        i32::MAX,
    ), State::GotNumber(i32::MIN)];
    for s in states {
        let mut store = StateStore::new();
        let handle = DialogueHandle::new(4);
        handle.update(&mut store, s).unwrap();
        assert_eq!(handle.current(&store), s);
    }
}

#[test]
fn update_reset_current_reads_start() {
    let mut store = StateStore::new();
    let handle = DialogueHandle::new(4);
    handle.update(&mut store, State::GotNumber(123)).unwrap();
    handle.reset(&mut store).unwrap();
    assert_eq!(handle.current(&store), State::Start);
    assert_eq!(store.get(4), None);
}

#[test]
fn updates_do_not_leak_across_conversations() {
    let mut store = StateStore::new();
    let a = DialogueHandle::new(1);
    let b = DialogueHandle::new(2);
    a.update(&mut store, State::GotNumber(10)).unwrap();
    assert_eq!(b.current(&store), State::Start);
    b.update(&mut store, State::GotNumber(20)).unwrap();
    assert_eq!(a.current(&store), State::GotNumber(10));
    a.reset(&mut store).unwrap();
    assert_eq!(b.current(&store), State::GotNumber(20));
}

#[test]
fn serialized_racing_updates_keep_the_last_value() {
    // Both serialization orders of two racing updates: the store ends up
    // holding exactly the later one, never a mixture.
    let mut store = StateStore::new();
    let handle = DialogueHandle::new(7);
    handle.update(&mut store, State::GotNumber(1)).unwrap();
    handle.update(&mut store, State::GotNumber(2)).unwrap();
    assert_eq!(handle.current(&store), State::GotNumber(2));

    let mut store = StateStore::new();
    handle.update(&mut store, State::GotNumber(2)).unwrap();
    handle.update(&mut store, State::GotNumber(1)).unwrap();
    assert_eq!(handle.current(&store), State::GotNumber(1));
}

#[test]
fn set_overwrites_and_delete_removes() {
    let mut store = StateStore::new();
    store.set(3, State::GotNumber(5)).unwrap();
    store.set(3, State::GotNumber(6)).unwrap();
    assert_eq!(store.get(3), Some(State::GotNumber(6)));
    store.delete(3).unwrap();
    assert_eq!(store.get(3), None);
    // Deleting an absent record is a no-op, not a failure.
    store.delete(3).unwrap();
    assert_eq!(store.get(3), None);
}

#[test]
fn codec_round_trips_every_variant() {
    for s in [State::Start, State::GotNumber(42), State::GotNumber(-42), State::GotNumber(
        i32::MIN,
    ), State::GotNumber(i32::MAX)] {
        let bytes = encode_state(&s);
        assert_eq!(decode_state(&bytes), Some(s));
    }
}

#[test]
fn codec_layout_is_tagged() {
    assert_eq!(encode_state(&State::Start), vec![0]);
    assert_eq!(encode_state(&State::GotNumber(1)), vec![1, 1, 0, 0, 0]);
    assert_eq!(encode_state(&State::GotNumber(-1)), vec![1, 255, 255, 255, 255]);
}

#[test]
fn codec_rejects_malformed_records() {
    assert_eq!(decode_state(&[]), None);
    assert_eq!(decode_state(&[2]), None);
    assert_eq!(decode_state(&[1]), None);
    assert_eq!(decode_state(&[1, 0, 0, 0]), None);
    assert_eq!(decode_state(&[0, 0]), None);
    assert_eq!(decode_state(&[1, 0, 0, 0, 0, 0]), None);
}
