use polysig::error::Error;
use polysig::message::ServerMessage;
use polysig::payload::{decode_server, encode_server};
use polysig::session::{SessionId, SessionRequest, SessionState};

fn key(b: u8) -> Vec<u8> {
    vec![b; 32]
}

#[test]
fn round_trip_error_reply() {
    let message = ServerMessage::Error(404, "session not found".to_string());
    let encoded = encode_server(&message).unwrap();
    match decode_server(&encoded).unwrap() {
        ServerMessage::Error(code, text) => {
            assert_eq!(code, 404);
            assert_eq!(text, "session not found");
        }
        other => panic!("unexpected decoding: {:?}", other),
    }
}

#[test]
fn round_trip_new_session() {
    let message = ServerMessage::NewSession(SessionRequest {
        participant_keys: vec![key(1), key(2), key(3)],
    });
    let encoded = encode_server(&message).unwrap();
    match decode_server(&encoded).unwrap() {
        ServerMessage::NewSession(req) => {
            assert_eq!(req.participant_keys, vec![key(1), key(2), key(3)]);
        }
        other => panic!("unexpected decoding: {:?}", other),
    }
}

#[test]
fn round_trip_session_states_and_notifications() {
    let sid = SessionId(0xfeed_dead_beef_u128);
    let state = SessionState {
        session_id: sid,
        all_participants: vec![key(1), key(2)],
    };

    let encoded = encode_server(&ServerMessage::SessionCreated(state.clone())).unwrap();
    match decode_server(&encoded).unwrap() {
        ServerMessage::SessionCreated(st) => {
            assert_eq!(st.session_id, sid);
            assert_eq!(st.all_participants, vec![key(1), key(2)]);
        }
        other => panic!("unexpected decoding: {:?}", other),
    }

    let encoded = encode_server(&ServerMessage::SessionReady(state.clone())).unwrap();
    assert!(matches!(
        decode_server(&encoded).unwrap(),
        ServerMessage::SessionReady(_)
    ));
    let encoded = encode_server(&ServerMessage::SessionActive(state)).unwrap();
    assert!(matches!(
        decode_server(&encoded).unwrap(),
        ServerMessage::SessionActive(_)
    ));

    let encoded = encode_server(&ServerMessage::SessionReadyNotify(sid)).unwrap();
    assert!(matches!(
        decode_server(&encoded).unwrap(),
        ServerMessage::SessionReadyNotify(id) if id == sid
    ));
    let encoded = encode_server(&ServerMessage::SessionActiveNotify(sid)).unwrap();
    assert!(matches!(
        decode_server(&encoded).unwrap(),
        ServerMessage::SessionActiveNotify(id) if id == sid
    ));
    let encoded = encode_server(&ServerMessage::CloseSession(sid)).unwrap();
    assert!(matches!(
        decode_server(&encoded).unwrap(),
        ServerMessage::CloseSession(id) if id == sid
    ));
    let encoded = encode_server(&ServerMessage::SessionFinished(sid)).unwrap();
    assert!(matches!(
        decode_server(&encoded).unwrap(),
        ServerMessage::SessionFinished(id) if id == sid
    ));
}

#[test]
fn round_trip_session_connection() {
    let sid = SessionId(99);
    let message = ServerMessage::SessionConnection {
        session_id: sid,
        peer_key: key(7),
    };
    let encoded = encode_server(&message).unwrap();
    match decode_server(&encoded).unwrap() {
        ServerMessage::SessionConnection { session_id, peer_key } => {
            assert_eq!(session_id, sid);
            assert_eq!(peer_key, key(7));
        }
        other => panic!("unexpected decoding: {:?}", other),
    }
}

#[test]
fn server_noop_is_never_serialized() {
    assert!(matches!(
        encode_server(&ServerMessage::Noop),
        Err(Error::EncodingKind(0))
    ));
}

#[test]
fn server_decode_rejects_unknown_kind() {
    assert!(matches!(decode_server(&[99]), Err(Error::EncodingKind(99))));
    assert!(decode_server(&[]).is_err());
}
