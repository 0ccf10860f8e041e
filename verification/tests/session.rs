use polysig::session::{SessionId, SessionManager, SessionState};

fn key(b: u8) -> Vec<u8> {
    vec![b; 32]
}

#[test]
fn new_session_registers_participants() {
    let mut manager = SessionManager::default();
    let id = SessionId(1);
    manager.new_session_at(id, key(0), vec![key(1), key(2), key(1)], 1000);
    let session = manager.get_session(&id).unwrap();
    let keys = session.public_keys();
    // The owner comes first; duplicate participant keys are kept once.
    assert_eq!(keys.len(), 3);
    assert_eq!(keys[0], key(0));
    assert!(keys.contains(&key(1)));
    assert!(keys.contains(&key(2)));
}

#[test]
fn session_becomes_active_with_all_pairs() {
    let mut manager = SessionManager::default();
    let id = SessionId(7);
    manager.new_session_at(id, key(0), vec![key(1), key(2)], 0);
    assert!(!manager.get_session(&id).unwrap().is_active());

    // Connections may be registered in either orientation.
    assert!(manager.register_connection(&id, key(0), key(1)));
    assert!(!manager.get_session(&id).unwrap().is_active());
    assert!(manager.register_connection(&id, key(2), key(0)));
    assert!(!manager.get_session(&id).unwrap().is_active());
    assert!(manager.register_connection(&id, key(1), key(2)));
    assert!(manager.get_session(&id).unwrap().is_active());
}

#[test]
fn reversed_connection_is_not_recorded_twice() {
    // Membership is order-insensitive: once (a, b) is recorded, the
    // reversed (b, a) is refused, so each unordered pair has exactly
    // one entry.
    let mut manager = SessionManager::default();
    let id = SessionId(8);
    manager.new_session_at(id, key(0), vec![key(1)], 0);
    assert!(manager.register_connection(&id, key(0), key(1)));
    assert!(manager.register_connection(&id, key(1), key(0)));
    assert!(manager.get_session(&id).unwrap().is_active());
}

#[test]
fn owner_is_not_kept_among_participants() {
    // The owner key is filtered out of the participant set.
    let mut manager = SessionManager::default();
    let id = SessionId(12);
    manager.new_session_at(id, key(0), vec![key(1), key(0), key(2)], 0);
    let keys = manager.get_session(&id).unwrap().public_keys();
    assert_eq!(keys.len(), 3);
    assert_eq!(keys[0], key(0));
    assert_eq!(keys.iter().filter(|k| **k == key(0)).count(), 1);
}

#[test]
fn register_connection_on_missing_session_fails() {
    let mut manager = SessionManager::default();
    assert!(!manager.register_connection(&SessionId(9), key(0), key(1)));
}

#[test]
fn get_session_mut_edits_in_place() {
    let mut manager = SessionManager::default();
    let id = SessionId(4);
    manager.new_session_at(id, key(0), vec![key(1)], 0);
    {
        let session = manager.get_session_mut(&id).unwrap();
        session.register_connection(key(0), key(1));
    }
    assert!(manager.get_session(&id).unwrap().is_active());
    assert!(manager.get_session_mut(&SessionId(5)).is_none());
}

#[test]
fn remove_session_removes() {
    let mut manager = SessionManager::default();
    let id = SessionId(3);
    manager.new_session_at(id, key(0), vec![key(1)], 0);
    assert!(manager.remove_session(&id).is_some());
    assert!(manager.get_session(&id).is_none());
    assert!(manager.remove_session(&id).is_none());
}

#[test]
fn expiry_is_by_last_access_and_ttl() {
    let mut manager = SessionManager::default();
    let stale = SessionId(1);
    let fresh = SessionId(2);
    manager.new_session_at(stale, key(0), vec![key(1)], 1_000);
    manager.new_session_at(fresh, key(0), vec![key(2)], 1_000);

    // One session is touched inside the window, the other is not. With
    // a one-second time-to-live, only the untouched session has expired
    // one second and one millisecond later.
    assert!(manager.touch_session_at(&fresh, 2_000));
    let now = 1_000 + 1_000 + 1;
    let expired = manager.expired_keys_at(1, now);
    assert_eq!(expired, vec![stale]);

    // Inside the window nothing has expired.
    let expired = manager.expired_keys_at(1, 1_500);
    assert!(expired.is_empty());
}

#[test]
fn touch_session_returns_the_session() {
    let mut manager = SessionManager::default();
    let id = SessionId(5);
    manager.new_session_at(id, key(0), vec![key(1)], 0);
    assert!(manager.touch_session(&id).is_some());
    assert!(manager.touch_session(&SessionId(6)).is_none());
}

#[test]
fn connections_returns_suffix_after_own_key() {
    let state = SessionState {
        session_id: SessionId(1),
        all_participants: vec![key(1), key(2), key(3)],
    };
    // Each peer initiates handshakes only toward later peers.
    assert_eq!(state.connections(&key(1)), &[key(2), key(3)][..]);
    assert_eq!(state.connections(&key(2)), &[key(3)][..]);
    assert_eq!(state.connections(&key(3)), &[] as &[Vec<u8>]);
    // A peer not in the list makes no connections.
    assert_eq!(state.connections(&key(9)), &[] as &[Vec<u8>]);
}

#[test]
fn connections_of_empty_session_is_empty() {
    let state = SessionState {
        session_id: SessionId(1),
        all_participants: Vec::new(),
    };
    assert_eq!(state.connections(&key(1)), &[] as &[Vec<u8>]);
}

#[test]
fn party_numbers_are_one_based_positions() {
    let state = SessionState {
        session_id: SessionId(1),
        all_participants: vec![key(1), key(2), key(3)],
    };
    assert_eq!(state.party_number(&key(1)), Some(1));
    assert_eq!(state.party_number(&key(3)), Some(3));
    assert_eq!(state.party_number(&key(9)), None);
    assert_eq!(state.peer_key(2), Some(&key(2)));
    assert_eq!(state.peer_key(0), None);
    assert_eq!(state.peer_key(4), None);
}
