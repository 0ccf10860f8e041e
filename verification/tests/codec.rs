use polysig::codec::{decode_request, decode_response, encode_request, encode_response, IDENTITY, VERSION};
use polysig::error::Error;
use polysig::message::{
    Encoding, HandshakeMessage, OpaqueMessage, RequestMessage, ResponseMessage, SealedEnvelope,
    TransparentMessage,
};
use polysig::session::SessionId;

fn envelope(payload: Vec<u8>, broadcast: bool) -> SealedEnvelope {
    SealedEnvelope {
        encoding: Encoding::Json,
        length: payload.len(),
        payload,
        broadcast,
    }
}

#[test]
fn round_trip_server_handshake() {
    let message = RequestMessage::Transparent(TransparentMessage::ServerHandshake(
        HandshakeMessage::Initiator(3, vec![9, 8, 7, 6]),
    ));
    let encoded = encode_request(&message).unwrap();
    let decoded = decode_request(&encoded).unwrap();
    match decoded {
        RequestMessage::Transparent(TransparentMessage::ServerHandshake(
            HandshakeMessage::Initiator(n, buf),
        )) => {
            assert_eq!(n, 3);
            assert_eq!(buf, vec![9, 8, 7, 6]);
        }
        other => panic!("unexpected decoding: {:?}", other),
    }
}

#[test]
fn round_trip_peer_handshake() {
    let message = ResponseMessage::Transparent(TransparentMessage::PeerHandshake {
        public_key: vec![1; 32],
        message: HandshakeMessage::Responder(48, vec![2; 48]),
    });
    let encoded = encode_response(&message).unwrap();
    let decoded = decode_response(&encoded).unwrap();
    match decoded {
        ResponseMessage::Transparent(TransparentMessage::PeerHandshake { public_key, message }) => {
            assert_eq!(public_key, vec![1; 32]);
            match message {
                HandshakeMessage::Responder(n, buf) => {
                    assert_eq!(n, 48);
                    assert_eq!(buf, vec![2; 48]);
                }
                other => panic!("unexpected inner message: {:?}", other),
            }
        }
        other => panic!("unexpected decoding: {:?}", other),
    }
}

#[test]
fn round_trip_opaque_server() {
    let message =
        RequestMessage::Opaque(OpaqueMessage::ServerMessage(envelope(vec![5; 20], false)));
    let encoded = encode_request(&message).unwrap();
    let decoded = decode_request(&encoded).unwrap();
    match decoded {
        RequestMessage::Opaque(OpaqueMessage::ServerMessage(env)) => {
            assert!(matches!(env.encoding, Encoding::Json));
            assert_eq!(env.length, 20);
            assert_eq!(env.payload, vec![5; 20]);
            assert!(!env.broadcast);
        }
        other => panic!("unexpected decoding: {:?}", other),
    }
}

#[test]
fn round_trip_opaque_peer_with_session() {
    let sid = SessionId(0x0123456789abcdef0123456789abcdefu128);
    let message = RequestMessage::Opaque(OpaqueMessage::PeerMessage {
        public_key: vec![7; 32],
        session_id: Some(sid),
        envelope: envelope(vec![1, 2, 3], true),
    });
    let encoded = encode_request(&message).unwrap();
    let decoded = decode_request(&encoded).unwrap();
    match decoded {
        RequestMessage::Opaque(OpaqueMessage::PeerMessage {
            public_key,
            session_id,
            envelope,
        }) => {
            assert_eq!(public_key, vec![7; 32]);
            assert_eq!(session_id, Some(sid));
            assert_eq!(envelope.payload, vec![1, 2, 3]);
            assert!(envelope.broadcast);
        }
        other => panic!("unexpected decoding: {:?}", other),
    }
}

#[test]
fn round_trip_opaque_peer_without_session() {
    let message = RequestMessage::Opaque(OpaqueMessage::PeerMessage {
        public_key: vec![9; 32],
        session_id: None,
        envelope: envelope(Vec::new(), false),
    });
    let encoded = encode_request(&message).unwrap();
    let decoded = decode_request(&encoded).unwrap();
    match decoded {
        RequestMessage::Opaque(OpaqueMessage::PeerMessage { session_id, envelope, .. }) => {
            assert_eq!(session_id, None);
            assert!(envelope.payload.is_empty());
        }
        other => panic!("unexpected decoding: {:?}", other),
    }
}

#[test]
fn noop_is_never_serialized() {
    assert!(matches!(
        encode_request(&RequestMessage::Noop),
        Err(Error::EncodingKind(0))
    ));
    assert!(matches!(
        encode_response(&ResponseMessage::Noop),
        Err(Error::EncodingKind(0))
    ));
}

#[test]
fn decode_rejects_bad_identity() {
    let message = RequestMessage::Transparent(TransparentMessage::ServerHandshake(
        HandshakeMessage::Initiator(0, Vec::new()),
    ));
    let mut encoded = encode_request(&message).unwrap();
    encoded[0] ^= 0xff;
    assert!(matches!(
        decode_request(&encoded),
        Err(Error::BadEncodingIdentity)
    ));
    assert!(matches!(
        decode_request(&[]),
        Err(Error::BadEncodingIdentity)
    ));
    let _ = IDENTITY;
}

#[test]
fn decode_rejects_wrong_version() {
    let message = RequestMessage::Transparent(TransparentMessage::ServerHandshake(
        HandshakeMessage::Initiator(0, Vec::new()),
    ));
    let mut encoded = encode_request(&message).unwrap();
    encoded[5] = VERSION as u8 + 1;
    match decode_request(&encoded) {
        Err(Error::EncodingVersion(expected, got)) => {
            assert_eq!(expected, VERSION);
            assert_eq!(got, VERSION + 1);
        }
        other => panic!("unexpected result: {:?}", other),
    }
}

#[test]
fn decode_rejects_unknown_kind() {
    let message = RequestMessage::Transparent(TransparentMessage::ServerHandshake(
        HandshakeMessage::Initiator(0, Vec::new()),
    ));
    let mut encoded = encode_request(&message).unwrap();
    encoded[6] = 99;
    assert!(matches!(decode_request(&encoded), Err(Error::EncodingKind(99))));
}

#[test]
fn decode_rejects_truncated_frame() {
    let message = RequestMessage::Opaque(OpaqueMessage::ServerMessage(envelope(vec![5; 20], false)));
    let encoded = encode_request(&message).unwrap();
    let truncated = &encoded[..encoded.len() - 1];
    assert!(decode_request(truncated).is_err());
}

#[test]
fn encode_rejects_oversize_buffer() {
    let oversize = (polysig::codec::MAX_BUFFER_SIZE as usize) + 1;
    let message = RequestMessage::Transparent(TransparentMessage::ServerHandshake(
        HandshakeMessage::Initiator(oversize, Vec::new()),
    ));
    assert!(matches!(
        encode_request(&message),
        Err(Error::MaxBufferSize(_))
    ));
}
