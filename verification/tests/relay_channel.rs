use polysig::codec::{decode_request, encode_request};
use polysig::error::Error;
use polysig::keypair::Keypair;
use polysig::message::{Encoding, OpaqueMessage, RequestMessage};
use polysig::noise::{ProtocolState, TAGLEN};
use polysig::session::SessionId;

#[test]
fn transport_operations_fail_before_handshake() {
    let kp_a = Keypair::generate().unwrap();
    let kp_b = Keypair::generate().unwrap();
    let mut a = ProtocolState::new_initiator(&kp_a, kp_b.public_key()).unwrap();
    assert!(!a.is_transport());
    let result = a.encrypt_envelope(b"too early", Encoding::Blob, false);
    assert!(matches!(result, Err(Error::NotTransportState)));
}

#[test]
fn peer_channel_relays_in_order_without_plaintext() {
    let kp_a = Keypair::generate().unwrap();
    let kp_b = Keypair::generate().unwrap();

    // Pairwise handshake: exactly two messages, initiator first.
    let mut a = ProtocolState::new_initiator(&kp_a, kp_b.public_key()).unwrap();
    let mut b = ProtocolState::new_responder(&kp_b, kp_a.public_key()).unwrap();
    let m1 = a.write_handshake_message().unwrap();
    b.read_handshake_message(&m1).unwrap();
    let m2 = b.write_handshake_message().unwrap();
    a.read_handshake_message(&m2).unwrap();
    assert!(a.is_handshake_finished());
    assert!(b.is_handshake_finished());
    let mut a = a.into_transport_mode().unwrap();
    let mut b = b.into_transport_mode().unwrap();
    assert!(a.is_transport());
    assert!(b.is_transport());

    // One hundred JSON payloads pass the relay peer-to-peer. The relay
    // routes by the outer frame alone and never sees the plaintext.
    let sid = SessionId(77);
    let mut received = Vec::new();
    for i in 0..100u32 {
        let plaintext = format!("{{\"value\":{}}}", i).into_bytes();
        let envelope = a.encrypt_envelope(&plaintext, Encoding::Json, false).unwrap();
        assert_eq!(envelope.payload.len(), plaintext.len() + TAGLEN);
        // The ciphertext is not the plaintext.
        assert_ne!(&envelope.payload[..plaintext.len()], &plaintext[..]);

        let frame = RequestMessage::Opaque(OpaqueMessage::PeerMessage {
            public_key: kp_b.public_key().to_vec(),
            session_id: Some(sid),
            envelope,
        });
        let on_the_wire = encode_request(&frame).unwrap();

        // The relay decodes the outer frame, reads the receiver key,
        // and forwards the message unchanged.
        let routed = decode_request(&on_the_wire).unwrap();
        let (target, session_id, envelope) = match routed {
            RequestMessage::Opaque(OpaqueMessage::PeerMessage {
                public_key,
                session_id,
                envelope,
            }) => (public_key, session_id, envelope),
            other => panic!("relay cannot route this frame: {:?}", other),
        };
        assert_eq!(target, kp_b.public_key());
        assert_eq!(session_id, Some(sid));

        // The receiver decrypts; order per peer equals send order.
        let decrypted = b.decrypt_envelope(&envelope).unwrap();
        received.push(decrypted);
    }
    for (i, plaintext) in received.iter().enumerate() {
        assert_eq!(plaintext, &format!("{{\"value\":{}}}", i).into_bytes());
    }
}
