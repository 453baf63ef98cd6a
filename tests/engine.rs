use sic::{Engine, TokenRegistry, WaitQueue};

#[test]
fn get_before_any_upsert_is_absent() {
    let registry = TokenRegistry::new();
    assert_eq!(registry.get_token("123"), None);
    assert_eq!(registry.get_token(""), None);
}

#[test]
fn upsert_replaces_the_token() {
    let mut registry = TokenRegistry::new();
    registry.insert_or_update_token("42", "ab");
    registry.insert_or_update_token("42", "x");
    assert_eq!(registry.get_token("42"), Some("x".to_string()));
}

#[test]
fn upserts_to_distinct_ids_are_kept_apart() {
    let mut registry = TokenRegistry::new();
    registry.insert_or_update_token("1", "a");
    registry.insert_or_update_token("2", "bb");
    registry.insert_or_update_token("1", "ac");
    assert_eq!(registry.get_token("1"), Some("ac".to_string()));
    assert_eq!(registry.get_token("2"), Some("bb".to_string()));
    assert_eq!(registry.get_token("3"), None);
}

#[test]
fn wake_all_with_nothing_parked_is_a_no_op() {
    let mut queue: WaitQueue<u32> = WaitQueue::new();
    let woken = queue.wake_all();
    assert!(woken.is_empty());
    assert_eq!(queue.len(), 0);
}

#[test]
fn wake_all_hands_back_every_parked_handle_in_order() {
    let mut queue: WaitQueue<u32> = WaitQueue::new();
    queue.park_current(5);
    queue.park_current(9);
    assert_eq!(queue.len(), 2);
    assert_eq!(queue.wake_all(), vec![5, 9]);
    assert_eq!(queue.len(), 0);
}

#[test]
fn poll_with_zero_length_resolves_on_an_absent_token() {
    let mut engine: Engine<u32> = Engine::new();
    assert_eq!(engine.check_or_park("7", 0, 1), Some(String::new()));
    assert_eq!(engine.parked_len(), 0);
}

#[test]
fn poll_parks_until_a_long_enough_upsert() {
    let mut engine: Engine<u32> = Engine::new();
    assert_eq!(engine.check_or_park("7", 2, 1), None);
    assert_eq!(engine.parked_len(), 1);
    let woken = engine.record("7", "a");
    assert_eq!(woken, vec![1]);
    assert_eq!(engine.check_or_park("7", 2, 1), None);
    let woken = engine.record("7", "ab");
    assert_eq!(woken, vec![1]);
    assert_eq!(engine.check_or_park("7", 2, 1), Some("ab".to_string()));
    assert_eq!(engine.parked_len(), 0);
}

#[test]
fn record_with_nothing_parked_wakes_nothing() {
    let mut engine: Engine<u32> = Engine::new();
    assert!(engine.record("1", "z").is_empty());
    assert_eq!(engine.get_token("1"), Some("z".to_string()));
}

#[test]
fn one_upsert_resolves_exactly_the_satisfied_pollers() {
    let mut engine: Engine<u32> = Engine::new();
    let pollers = [("a", 1u32), ("b", 1), ("c", 2), ("d", 1)];
    for (handle, (id, len)) in pollers.iter().enumerate() {
        assert_eq!(engine.check_or_park(id, *len, handle as u32), None);
    }
    let mut woken = engine.record("b", "x");
    woken.sort();
    assert_eq!(woken, vec![0, 1, 2, 3]);
    let mut resolved = Vec::new();
    for handle in woken {
        let (id, len) = pollers[handle as usize];
        if let Some(token) = engine.check_or_park(id, len, handle) {
            resolved.push((handle, token));
        }
    }
    assert_eq!(resolved, vec![(1, "x".to_string())]);
    assert_eq!(engine.parked_len(), 3);
}
