use polysig::driver::{Bridge, BridgeStep, ProtocolDriver};
use polysig::error::Error;
use polysig::frost::{clone_identifier, identifier_from_u16, Identifier, KeyGenDriver};
use polysig::session::SessionId;

fn make_identifiers(n: u16) -> Vec<Identifier> {
    (1..=n).map(|i| identifier_from_u16(i).unwrap()).collect()
}

fn clone_identifiers(ids: &[Identifier]) -> Vec<Identifier> {
    ids.iter().map(clone_identifier).collect()
}

#[test]
fn bridge_rejects_foreign_and_missing_session_ids() {
    let sid = SessionId(42);
    let identifiers = make_identifiers(2);
    let d1 = KeyGenDriver::new(1, 2, 2, clone_identifiers(&identifiers)).unwrap();
    let mut d2 = KeyGenDriver::new(2, 2, 2, identifiers).unwrap();
    let mut bridge = Bridge { driver: d1, session_id: sid, party_number: 1 };

    let mut messages = d2.proceed().unwrap();
    let message = messages.remove(0);
    let result = bridge.handle_message(None, message);
    assert!(matches!(result, Err(Error::SessionIdRequired)));

    let mut d3 = KeyGenDriver::new(2, 2, 2, make_identifiers(2)).unwrap();
    let mut messages = d3.proceed().unwrap();
    let message = messages.remove(0);
    let result = bridge.handle_message(Some(SessionId(43)), message);
    assert!(matches!(result, Err(Error::SessionIdMismatch)));
}

#[test]
fn bridge_drives_a_two_party_key_generation() {
    let sid = SessionId(7);
    let identifiers = make_identifiers(2);
    let d1 = KeyGenDriver::new(1, 2, 2, clone_identifiers(&identifiers)).unwrap();
    let d2 = KeyGenDriver::new(2, 2, 2, identifiers).unwrap();
    let mut b1 = Bridge { driver: d1, session_id: sid, party_number: 1 };
    let mut b2 = Bridge { driver: d2, session_id: sid, party_number: 2 };

    // The initial advance seeds the first round's traffic.
    let mut from1 = b1.execute().unwrap();
    let mut from2 = b2.execute().unwrap();
    assert_eq!(from1.len(), 1);
    assert_eq!(from2.len(), 1);
    assert_eq!(from1[0].receiver, 2);
    assert_eq!(from2[0].receiver, 1);

    // Feeding the round-one message completes the round: the bridge
    // finalizes and dispatches the round-two traffic.
    let step = b1.handle_message(Some(sid), from2.remove(0)).unwrap();
    let mut to2 = match step {
        BridgeStep::Dispatch(messages) => messages,
        _ => panic!("expected dispatch after round one"),
    };
    let step = b2.handle_message(Some(sid), from1.remove(0)).unwrap();
    let mut to1 = match step {
        BridgeStep::Dispatch(messages) => messages,
        _ => panic!("expected dispatch after round one"),
    };

    // Feeding the round-two message completes the protocol.
    let step = b1.handle_message(Some(sid), to1.remove(0)).unwrap();
    assert!(matches!(step, BridgeStep::Output(_)));
    let step = b2.handle_message(Some(sid), to2.remove(0)).unwrap();
    assert!(matches!(step, BridgeStep::Output(_)));
}

#[test]
fn bridge_is_pending_while_a_round_is_incomplete() {
    let sid = SessionId(9);
    let identifiers = make_identifiers(3);
    let d1 = KeyGenDriver::new(1, 3, 2, clone_identifiers(&identifiers)).unwrap();
    let mut d2 = KeyGenDriver::new(2, 3, 2, clone_identifiers(&identifiers)).unwrap();
    let mut b1 = Bridge { driver: d1, session_id: sid, party_number: 1 };

    let _ = b1.execute().unwrap();
    let mut from2 = d2.proceed().unwrap();
    // Only one of the two expected round-one packages has arrived.
    let to1 = from2.remove(0);
    assert_eq!(to1.receiver, 1);
    let step = b1.handle_message(Some(sid), to1).unwrap();
    assert!(matches!(step, BridgeStep::Pending));
}
