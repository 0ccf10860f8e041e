use polysig::error::Error;
use polysig::keypair::{pattern, Keypair, KeyType};

#[test]
fn encode_decode_keypair() {
    let keypair = Keypair::generate().unwrap();
    let pem = keypair.encode_pem();
    let decoded = Keypair::decode_pem(&pem).unwrap();
    assert_eq!(keypair.public_key(), decoded.public_key());
    assert_eq!(keypair.private_key(), decoded.private_key());
}

#[test]
fn decode_keypair_wrong_length() {
    let public_pem = pem::Pem::new("INVALID TAG", vec![0; 32]);
    let pem = pem::encode_many(&[public_pem]);
    let result = Keypair::decode_pem(&pem);
    assert!(matches!(result, Err(Error::BadKeypairPem)));
}

#[test]
fn decode_keypair_wrong_order() {
    let pattern_pem = pem::Pem::new("NOISE PATTERN", vec![0; 32]);
    let public_pem = pem::Pem::new("NOISE PUBLIC KEY", vec![0; 32]);
    let private_pem = pem::Pem::new("NOISE PRIVATE KEY", vec![0; 32]);
    let pem = pem::encode_many(&[pattern_pem, private_pem, public_pem]);
    let result = Keypair::decode_pem(&pem);
    assert!(matches!(result, Err(Error::BadKeypairPem)));
}

#[test]
fn decode_keypair_pattern_mismatch() {
    let pattern_pem = pem::Pem::new("NOISE PATTERN", vec![0; 32]);
    let public_pem = pem::Pem::new("NOISE PUBLIC KEY", vec![0; 32]);
    let private_pem = pem::Pem::new("NOISE PRIVATE KEY", vec![0; 32]);
    let pem = pem::encode_many(&[pattern_pem, public_pem, private_pem]);
    let result = Keypair::decode_pem(&pem);
    assert!(matches!(result, Err(Error::PatternMismatch(_))));
}

#[test]
fn noise_transport_encrypt_decrypt() {
    let builder_1 = snow::Builder::new(pattern().parse().unwrap());
    let builder_2 = snow::Builder::new(pattern().parse().unwrap());

    let keypair1 = builder_1.generate_keypair().unwrap();
    let keypair2 = builder_2.generate_keypair().unwrap();

    let mut initiator = builder_1
        .local_private_key(&keypair1.private)
        .remote_public_key(&keypair2.public)
        .build_initiator()
        .unwrap();

    let mut responder = builder_2
        .local_private_key(&keypair2.private)
        .remote_public_key(&keypair1.public)
        .build_responder()
        .unwrap();

    let (mut read_buf, mut first_msg, mut second_msg) = ([0u8; 1024], [0u8; 1024], [0u8; 1024]);

    let len = initiator.write_message(&[], &mut first_msg).unwrap();
    responder.read_message(&first_msg[..len], &mut read_buf).unwrap();

    let len = responder.write_message(&[], &mut second_msg).unwrap();
    initiator.read_message(&second_msg[..len], &mut read_buf).unwrap();

    let mut initiator = initiator.into_transport_mode().unwrap();
    let mut responder = responder.into_transport_mode().unwrap();

    let data = "this is the message that is sent out";
    let payload = data.as_bytes();

    let taglen = polysig::noise::TAGLEN;
    let mut message = vec![0; payload.len() + taglen];
    let len = initiator.write_message(payload, &mut message).unwrap();

    let payload = message;
    let mut message = vec![0; len];
    responder.read_message(&payload[..len], &mut message).unwrap();

    let new_length = len - taglen;
    message.truncate(new_length);

    let decoded = std::str::from_utf8(&message).unwrap();
    assert_eq!(data, decoded);
}

#[test]
fn key_type_parse_and_name() {
    assert!(matches!(KeyType::parse("noise"), Ok(KeyType::Noise)));
    assert!(matches!(KeyType::parse("ecdsa"), Ok(KeyType::Ecdsa)));
    assert!(matches!(KeyType::parse("ed25519"), Ok(KeyType::Ed25519)));
    assert!(matches!(KeyType::parse("schnorr"), Ok(KeyType::Schnorr)));
    assert!(matches!(
        KeyType::parse("rsa"),
        Err(Error::UnknownKeyType(_))
    ));
    assert_eq!(KeyType::Noise.as_str(), "noise");
    assert_eq!(KeyType::Schnorr.as_str(), "schnorr");
}

#[test]
fn keypair_accessors() {
    let kp = Keypair::new(vec![1, 2, 3], vec![4, 5, 6], KeyType::Noise);
    assert_eq!(kp.private_key(), &[1, 2, 3]);
    assert_eq!(kp.public_key(), &[4, 5, 6]);
}

#[test]
fn generated_keys_have_noise_lengths() {
    let kp = Keypair::generate().unwrap();
    assert_eq!(kp.public_key().len(), 32);
    assert_eq!(kp.private_key().len(), 32);
}
