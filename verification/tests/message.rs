use polysig::message::{
    Encoding, HandshakeMessage, OpaqueMessage, RequestMessage, ResponseMessage, SealedEnvelope,
    ServerMessage, TransparentMessage, ENCODING_BLOB, ENCODING_JSON, ERROR, HANDSHAKE_INITIATOR,
    HANDSHAKE_PEER, HANDSHAKE_RESPONDER, HANDSHAKE_SERVER, NOOP, OPAQUE, OPAQUE_PEER,
    OPAQUE_SERVER, SESSION_ACTIVE, SESSION_CLOSE, SESSION_CONNECTION, SESSION_CREATED,
    SESSION_FINISHED, SESSION_NEW, SESSION_READY, SESSION_READY_NOTIFY, TRANSPARENT,
};
use polysig::session::{SessionId, SessionRequest, SessionState};

fn envelope() -> SealedEnvelope {
    SealedEnvelope { encoding: Encoding::Blob, length: 0, payload: Vec::new(), broadcast: false }
}

#[test]
fn kind_bytes_are_stable() {
    assert_eq!(HandshakeMessage::Noop.kind(), NOOP);
    assert_eq!(HandshakeMessage::Initiator(0, Vec::new()).kind(), HANDSHAKE_INITIATOR);
    assert_eq!(HandshakeMessage::Responder(0, Vec::new()).kind(), HANDSHAKE_RESPONDER);

    assert_eq!(
        TransparentMessage::ServerHandshake(HandshakeMessage::Noop).kind(),
        HANDSHAKE_SERVER
    );
    assert_eq!(
        TransparentMessage::PeerHandshake {
            public_key: Vec::new(),
            message: HandshakeMessage::Noop
        }
        .kind(),
        HANDSHAKE_PEER
    );

    assert_eq!(OpaqueMessage::ServerMessage(envelope()).kind(), OPAQUE_SERVER);
    assert_eq!(
        OpaqueMessage::PeerMessage {
            public_key: Vec::new(),
            session_id: None,
            envelope: envelope()
        }
        .kind(),
        OPAQUE_PEER
    );

    assert_eq!(RequestMessage::Noop.kind(), NOOP);
    assert_eq!(RequestMessage::Transparent(TransparentMessage::Noop).kind(), TRANSPARENT);
    assert_eq!(ResponseMessage::Opaque(OpaqueMessage::Noop).kind(), OPAQUE);

    assert_eq!(Encoding::Blob.kind(), ENCODING_BLOB);
    assert_eq!(Encoding::Json.kind(), ENCODING_JSON);

    let state = SessionState { session_id: SessionId(1), all_participants: Vec::new() };
    assert_eq!(ServerMessage::Error(404, "not found".to_string()).kind(), ERROR);
    assert_eq!(
        ServerMessage::NewSession(SessionRequest { participant_keys: Vec::new() }).kind(),
        SESSION_NEW
    );
    assert_eq!(ServerMessage::SessionCreated(state.clone()).kind(), SESSION_CREATED);
    assert_eq!(ServerMessage::SessionReadyNotify(SessionId(1)).kind(), SESSION_READY_NOTIFY);
    assert_eq!(ServerMessage::SessionReady(state.clone()).kind(), SESSION_READY);
    assert_eq!(
        ServerMessage::SessionConnection { session_id: SessionId(1), peer_key: Vec::new() }
            .kind(),
        SESSION_CONNECTION
    );
    assert_eq!(ServerMessage::SessionActive(state).kind(), SESSION_ACTIVE);
    assert_eq!(ServerMessage::CloseSession(SessionId(1)).kind(), SESSION_CLOSE);
    assert_eq!(ServerMessage::SessionFinished(SessionId(1)).kind(), SESSION_FINISHED);
}
