use polysig::error::Error;
use polysig::message::{
    Encoding, HandshakeMessage, OpaqueMessage, RequestMessage, SealedEnvelope, TransparentMessage,
};
use polysig::relay::RouteAction;
use polysig::session::{SessionId, SessionManager};

fn key(b: u8) -> Vec<u8> {
    vec![b; 32]
}

fn envelope() -> SealedEnvelope {
    SealedEnvelope { encoding: Encoding::Json, length: 3, payload: vec![1, 2, 3], broadcast: false }
}

fn manager_with_session(id: SessionId) -> SessionManager {
    let mut manager = SessionManager::default();
    manager.new_session_at(id, key(0), vec![key(1), key(2)], 0);
    manager
}

#[test]
fn server_handshake_is_consumed_locally() {
    let manager = manager_with_session(SessionId(1));
    let frame = RequestMessage::Transparent(TransparentMessage::ServerHandshake(
        HandshakeMessage::Initiator(0, vec![1, 2]),
    ));
    let action = manager.route_request(&key(1), frame).unwrap();
    assert!(matches!(action, RouteAction::ServerHandshake(_)));
}

#[test]
fn peer_handshake_is_relayed_only_inside_a_session() {
    let manager = manager_with_session(SessionId(1));

    // Both endpoints are members of the session: relayed.
    let frame = RequestMessage::Transparent(TransparentMessage::PeerHandshake {
        public_key: key(2),
        message: HandshakeMessage::Initiator(0, vec![1]),
    });
    let action = manager.route_request(&key(1), frame).unwrap();
    match action {
        RouteAction::RelayHandshake { to, .. } => assert_eq!(to, key(2)),
        _ => panic!("expected the handshake to be relayed"),
    }

    // The owner counts as a member.
    let frame = RequestMessage::Transparent(TransparentMessage::PeerHandshake {
        public_key: key(0),
        message: HandshakeMessage::Responder(0, vec![1]),
    });
    assert!(manager.route_request(&key(2), frame).is_ok());

    // A stranger as target is refused.
    let frame = RequestMessage::Transparent(TransparentMessage::PeerHandshake {
        public_key: key(9),
        message: HandshakeMessage::Initiator(0, vec![1]),
    });
    assert!(matches!(
        manager.route_request(&key(1), frame),
        Err(Error::NotSessionParticipant)
    ));

    // A stranger as sender is refused too.
    let frame = RequestMessage::Transparent(TransparentMessage::PeerHandshake {
        public_key: key(1),
        message: HandshakeMessage::Initiator(0, vec![1]),
    });
    assert!(matches!(
        manager.route_request(&key(9), frame),
        Err(Error::NotSessionParticipant)
    ));
}

#[test]
fn opaque_peer_message_needs_its_session() {
    let sid = SessionId(5);
    let manager = manager_with_session(sid);

    // Routed inside the named session.
    let frame = RequestMessage::Opaque(OpaqueMessage::PeerMessage {
        public_key: key(2),
        session_id: Some(sid),
        envelope: envelope(),
    });
    let action = manager.route_request(&key(1), frame).unwrap();
    match action {
        RouteAction::RelayOpaque { to, session_id, .. } => {
            assert_eq!(to, key(2));
            assert_eq!(session_id, sid);
        }
        _ => panic!("expected the message to be routed"),
    }

    // Without a session identifier the message is rejected.
    let frame = RequestMessage::Opaque(OpaqueMessage::PeerMessage {
        public_key: key(2),
        session_id: None,
        envelope: envelope(),
    });
    assert!(matches!(
        manager.route_request(&key(1), frame),
        Err(Error::SessionIdRequired)
    ));

    // A session the endpoints do not share is refused.
    let frame = RequestMessage::Opaque(OpaqueMessage::PeerMessage {
        public_key: key(2),
        session_id: Some(SessionId(6)),
        envelope: envelope(),
    });
    assert!(matches!(
        manager.route_request(&key(1), frame),
        Err(Error::NotSessionParticipant)
    ));
}

#[test]
fn opaque_server_message_is_dispatched_locally() {
    let manager = manager_with_session(SessionId(1));
    let frame = RequestMessage::Opaque(OpaqueMessage::ServerMessage(envelope()));
    let action = manager.route_request(&key(1), frame).unwrap();
    assert!(matches!(action, RouteAction::OpaqueServer(_)));
}

#[test]
fn reserved_frames_are_rejected() {
    let manager = manager_with_session(SessionId(1));
    assert!(matches!(
        manager.route_request(&key(1), RequestMessage::Noop),
        Err(Error::EncodingKind(0))
    ));
    assert!(matches!(
        manager.route_request(&key(1), RequestMessage::Transparent(TransparentMessage::Noop)),
        Err(Error::EncodingKind(0))
    ));
    assert!(matches!(
        manager.route_request(&key(1), RequestMessage::Opaque(OpaqueMessage::Noop)),
        Err(Error::EncodingKind(0))
    ));
}
