use polysig::codec::{decode_request, encode_request};
use polysig::compress::{deflate, inflate};
use polysig::message::{HandshakeMessage, RequestMessage, TransparentMessage};

#[test]
fn inflate_undoes_deflate() {
    let data: Vec<u8> = (0..200u32).map(|i| (i % 251) as u8).collect();
    let compressed = deflate(&data).unwrap();
    let restored = inflate(&compressed).unwrap();
    assert_eq!(restored, data);

    let empty = deflate(&[]).unwrap();
    assert_eq!(inflate(&empty).unwrap(), Vec::<u8>::new());
}

#[test]
fn inflate_rejects_garbage() {
    assert!(inflate(&[1, 2, 3, 4, 5]).is_err());
}

#[test]
fn frames_survive_the_compression_boundary() {
    // A frame is encoded, deflated for the socket, inflated on
    // receipt, and decoded: the round trip is exact.
    let message = RequestMessage::Transparent(TransparentMessage::ServerHandshake(
        HandshakeMessage::Initiator(7, vec![1, 2, 3, 4, 5, 6, 7]),
    ));
    let encoded = encode_request(&message).unwrap();
    let on_the_wire = deflate(&encoded).unwrap();
    let inflated = inflate(&on_the_wire).unwrap();
    assert_eq!(inflated, encoded);
    let decoded = decode_request(&inflated).unwrap();
    match decoded {
        RequestMessage::Transparent(TransparentMessage::ServerHandshake(
            HandshakeMessage::Initiator(n, buf),
        )) => {
            assert_eq!(n, 7);
            assert_eq!(buf, vec![1, 2, 3, 4, 5, 6, 7]);
        }
        other => panic!("unexpected decoding: {:?}", other),
    }
}
