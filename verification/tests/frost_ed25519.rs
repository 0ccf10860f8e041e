use polysig::driver::{ProtocolDriver, RoundMessage};
use polysig::error::Error;
use polysig::frost::{
    clone_identifier, clone_key_package, clone_public_key_package, generate_signing_key,
    group_verifying_key_bytes, identifier_from_u16, verify_signature, verifying_key_of,
    DkgPackage, FrostDriver, Identifier, KeyGenDriver, KeyShare, SignPackage,
};
use polysig::session::SessionId;

fn make_identifiers(n: u16) -> Vec<Identifier> {
    let mut out = Vec::new();
    let mut i = 1u16;
    while i <= n {
        out.push(identifier_from_u16(i).unwrap());
        i += 1;
    }
    out
}

fn clone_identifiers(ids: &[Identifier]) -> Vec<Identifier> {
    ids.iter().map(clone_identifier).collect()
}

fn deliver_dkg(drivers: &mut [KeyGenDriver], messages: Vec<RoundMessage<DkgPackage, Identifier>>) {
    for message in messages {
        let receiver = message.receiver as usize;
        drivers[receiver - 1].handle_incoming(message).unwrap();
    }
}

fn run_dkg(t: u16, n: u16) -> Vec<KeyShare> {
    let identifiers = make_identifiers(n);
    let mut drivers: Vec<KeyGenDriver> = (1..=n)
        .map(|p| KeyGenDriver::new(p, n, t, clone_identifiers(&identifiers)).unwrap())
        .collect();

    // Round one: each party broadcasts its commitment package.
    let mut round1 = Vec::new();
    for driver in drivers.iter_mut() {
        round1.extend(driver.proceed().unwrap());
    }
    deliver_dkg(&mut drivers, round1);

    // Round two: each party sends one secret package per other party.
    let mut round2 = Vec::new();
    for driver in drivers.iter_mut() {
        let info = driver.round_info().unwrap();
        assert_eq!(info.round_number, 2);
        assert!(info.can_finalize);
        assert!(driver.try_finalize_round().unwrap().is_none());
        round2.extend(driver.proceed().unwrap());
    }
    deliver_dkg(&mut drivers, round2);

    // Round three: each party derives its key share locally.
    drivers
        .iter_mut()
        .map(|driver| {
            let info = driver.round_info().unwrap();
            assert_eq!(info.round_number, 3);
            assert!(info.can_finalize);
            driver.try_finalize_round().unwrap().unwrap()
        })
        .collect()
}

#[test]
fn frost_dkg_two_of_three() {
    let shares = run_dkg(2, 3);
    assert_eq!(shares.len(), 3);
    // All parties derive the same group verifying key.
    let group_key = group_verifying_key_bytes(&shares[0].public_key_package).unwrap();
    for share in &shares {
        assert_eq!(
            group_verifying_key_bytes(&share.public_key_package).unwrap(),
            group_key
        );
    }
}

#[test]
fn frost_dkg_round_counter_advances_by_one() {
    let identifiers = make_identifiers(2);
    let mut driver = KeyGenDriver::new(1, 2, 2, identifiers).unwrap();
    assert_eq!(driver.round_info().unwrap().round_number, 1);
    driver.proceed().unwrap();
    assert_eq!(driver.round_info().unwrap().round_number, 2);
}

#[test]
fn frost_dkg_caches_early_round_two_package() {
    let identifiers = make_identifiers(2);
    let mut p1 = KeyGenDriver::new(1, 2, 2, clone_identifiers(&identifiers)).unwrap();
    let mut p2 = KeyGenDriver::new(2, 2, 2, identifiers).unwrap();

    let from_p1 = p1.proceed().unwrap();
    let mut from_p2_round1 = p2.proceed().unwrap();

    // Party two advances to its second round before party one has seen
    // party two's first-round package at all.
    for message in from_p1 {
        p2.handle_incoming(message).unwrap();
    }
    assert!(p2.try_finalize_round().unwrap().is_none());
    let from_p2_round2 = p2.proceed().unwrap();

    // The second-round package arrives at party one ahead of its round;
    // it must be cached, not dropped.
    let mut p1_messages = from_p2_round2;
    p1_messages.append(&mut from_p2_round1);
    for message in p1_messages {
        p1.handle_incoming(message).unwrap();
    }

    // Party one catches up and the cached package is consumed.
    assert!(p1.try_finalize_round().unwrap().is_none());
    let for_p2 = p1.proceed().unwrap();
    assert!(p1.round_info().unwrap().can_finalize);
    assert!(p1.try_finalize_round().unwrap().is_some());

    for message in for_p2 {
        p2.handle_incoming(message).unwrap();
    }
    assert!(p2.try_finalize_round().unwrap().is_some());
}

fn deliver_sign(
    drivers: &mut [FrostDriver],
    messages: Vec<RoundMessage<SignPackage, ed25519_dalek::VerifyingKey>>,
) {
    for message in messages {
        let receiver = message.receiver as usize;
        drivers[receiver - 1].handle_incoming(message).unwrap();
    }
}

/// Run a signing session among the DKG parties named by `signers`
/// (zero-based indices), with threshold `t`, and check the aggregated
/// signature under the group key.
fn run_sign(n: u16, t: u16, signers: &[usize], message: &[u8]) {
    let shares = run_dkg(t, n);
    let group_public = clone_public_key_package(&shares[0].public_key_package);

    let dkg_identifiers = make_identifiers(n);
    let signing_identifiers: Vec<Identifier> = signers
        .iter()
        .map(|&p| clone_identifier(&dkg_identifiers[p]))
        .collect();
    let signing_keys: Vec<ed25519_dalek::SigningKey> =
        signers.iter().map(|_| generate_signing_key()).collect();
    let verifiers: Vec<ed25519_dalek::VerifyingKey> =
        signing_keys.iter().map(verifying_key_of).collect();

    let mut drivers: Vec<FrostDriver> = Vec::new();
    for (k, (signer, &party)) in signing_keys.into_iter().zip(signers.iter()).enumerate() {
        let share = KeyShare {
            key_package: clone_key_package(&shares[party].key_package),
            public_key_package: clone_public_key_package(&shares[party].public_key_package),
        };
        drivers.push(
            FrostDriver::new(
                SessionId(11),
                (k + 1) as u16,
                signer,
                verifiers.clone(),
                clone_identifiers(&signing_identifiers),
                t,
                share,
                message.to_vec(),
            )
            .unwrap(),
        );
    }

    // Round one: commitments; round two: signature shares.
    for round in 0..2 {
        let mut traffic = Vec::new();
        for driver in drivers.iter_mut() {
            if round == 1 {
                assert!(driver.round_info().unwrap().can_finalize);
                assert!(driver.try_finalize_round().unwrap().is_none());
            }
            traffic.extend(driver.proceed().unwrap());
        }
        deliver_sign(&mut drivers, traffic);
    }

    // Aggregate: every signer produces the same valid group signature.
    for driver in drivers.iter_mut() {
        let signature = driver.try_finalize_round().unwrap().unwrap();
        assert!(verify_signature(&group_public, message, &signature));
        assert!(!verify_signature(
            &group_public,
            b"a different message entirely",
            &signature
        ));
    }
}

#[test]
fn frost_dkg_sign_two_of_three() {
    // Any two of the three participants can sign.
    let message = b"this is the message that is sent out";
    run_sign(3, 2, &[0, 2], message);
}

#[test]
fn frost_dkg_sign_three_of_five() {
    let message = b"this is the message that is sent out";
    run_sign(5, 3, &[1, 2, 4], message);
}

#[test]
fn frost_driver_rejects_unknown_round_and_wrong_payload() {
    let identifiers = make_identifiers(2);
    let mut p1 = KeyGenDriver::new(1, 2, 2, clone_identifiers(&identifiers)).unwrap();
    let mut p2 = KeyGenDriver::new(2, 2, 2, identifiers).unwrap();

    let mut from_p1 = p1.proceed().unwrap();
    let message = from_p1.remove(0);

    // A round number outside the protocol is rejected.
    let bogus = RoundMessage {
        round: 9,
        sender: clone_identifier(&message.sender),
        receiver: message.receiver,
        body: DkgPackage::Round1(match message.body {
            DkgPackage::Round1(p) => p,
            DkgPackage::Round2(_) => panic!("round one emits round-one packages"),
        }),
    };
    assert!(matches!(
        p2.handle_incoming(bogus),
        Err(Error::InvalidRound(9))
    ));

    // A first-round payload under a second-round number is rejected.
    let mut from_p2 = p2.proceed().unwrap();
    let message = from_p2.remove(0);
    let mismatched = RoundMessage {
        round: 2,
        sender: clone_identifier(&message.sender),
        receiver: message.receiver,
        body: message.body,
    };
    assert!(matches!(
        p1.handle_incoming(mismatched),
        Err(Error::RoundPayload(2))
    ));
}

#[test]
fn identifier_zero_is_rejected() {
    assert!(identifier_from_u16(0).is_err());
    assert!(identifier_from_u16(1).is_ok());
}
