use polysig::cggmp::{
    account_verifying_key, init_verifiers, make_reshare_inputs, needs_reshare,
    participates_in_key_init, sign_step, AckCollector, DkgOrchestrator, DkgPhase, KeyInitAck,
    PartyOptions, SignAction, SignEvent, SignPhase, VerifierKey,
};
use polysig::error::Error;
use polysig::Parameters;

fn vkey(b: u8) -> VerifierKey {
    VerifierKey { bytes: vec![b; 33] }
}

#[test]
fn parameters_require_a_sensible_threshold() {
    assert!(Parameters::new(5, 3).is_some());
    assert!(Parameters::new(3, 3).is_some());
    assert!(Parameters::new(1, 1).is_some());
    assert!(Parameters::new(3, 0).is_none());
    assert!(Parameters::new(2, 3).is_none());
}

#[test]
fn reshare_is_skipped_when_threshold_equals_parties() {
    let equal = Parameters::new(3, 3).unwrap();
    assert!(!needs_reshare(&equal));
    let below = Parameters::new(5, 3).unwrap();
    assert!(needs_reshare(&below));
}

#[test]
fn trivial_key_init_with_threshold_one() {
    // With a threshold of one, only party zero runs key-init.
    assert!(participates_in_key_init(0, 1));
    assert!(!participates_in_key_init(1, 1));
    assert!(!participates_in_key_init(2, 1));
    let verifiers = vec![vkey(1), vkey(2), vkey(3)];
    let init = init_verifiers(&verifiers, 1);
    assert_eq!(init.len(), 1);
    assert_eq!(init[0].bytes, verifiers[0].bytes);
}

#[test]
fn non_init_party_joins_reshare_without_old_share() {
    let verifiers = vec![vkey(1), vkey(2), vkey(3), vkey(4), vkey(5)];
    let inputs = make_reshare_inputs(3, 3, vec![9; 33], &verifiers, false);
    assert!(!inputs.has_old_share);
    assert_eq!(inputs.old_threshold, 3);
    assert_eq!(inputs.new_threshold, 3);
    assert_eq!(inputs.old_holders.len(), 3);
    assert_eq!(inputs.new_holders.len(), 5);
    for (j, holder) in inputs.old_holders.iter().enumerate() {
        assert_eq!(holder.bytes, verifiers[j].bytes);
    }
    for (j, holder) in inputs.new_holders.iter().enumerate() {
        assert_eq!(holder.bytes, verifiers[j].bytes);
    }
}

#[test]
fn init_party_joins_reshare_with_its_share() {
    let verifiers = vec![vkey(1), vkey(2), vkey(3)];
    let inputs = make_reshare_inputs(2, 2, vec![9; 33], &verifiers, true);
    assert!(inputs.has_old_share);
    assert_eq!(inputs.account_verifying_key, vec![9; 33]);
}

#[test]
fn ack_collection_completes_at_the_threshold() {
    let mut collector = AckCollector::new(3);
    assert!(!collector.is_complete());
    assert!(!collector.add(KeyInitAck { party_index: 1, key_share_verifying_key: vec![1] }));
    assert!(!collector.add(KeyInitAck { party_index: 0, key_share_verifying_key: vec![7] }));
    assert!(collector.add(KeyInitAck { party_index: 2, key_share_verifying_key: vec![2] }));
    assert!(collector.is_complete());
    // The acknowledgement of party zero supplies the account key.
    assert_eq!(collector.account_verifying_key(), Some(&vec![7]));
}

#[test]
fn account_key_prefers_own_share() {
    let collector = AckCollector::new(1);
    let key = account_verifying_key(Some(vec![5; 33]), &collector).unwrap();
    assert_eq!(key, vec![5; 33]);
}

#[test]
fn account_key_requires_an_ack_of_party_zero() {
    let mut collector = AckCollector::new(2);
    collector.add(KeyInitAck { party_index: 1, key_share_verifying_key: vec![1] });
    collector.add(KeyInitAck { party_index: 2, key_share_verifying_key: vec![2] });
    let result = account_verifying_key(None, &collector);
    assert!(matches!(result, Err(Error::NoKeyInitAck)));

    collector.add(KeyInitAck { party_index: 0, key_share_verifying_key: vec![9] });
    let key = account_verifying_key(None, &collector).unwrap();
    assert_eq!(key, vec![9]);
}

#[test]
fn dkg_run_with_reshare_phase() {
    // A three-of-five committee: parties below the threshold run
    // key-init, the others wait for the acknowledgements.
    let parameters = Parameters::new(5, 3).unwrap();
    let mut init_party = DkgOrchestrator::new(parameters, 0);
    let mut late_party = DkgOrchestrator::new(parameters, 4);

    // The init party finishes its rounds and announces its key.
    let ack0 = init_party.init_complete(vec![9; 33]).unwrap();
    assert_eq!(ack0.party_index, 0);
    assert_eq!(ack0.key_share_verifying_key, vec![9; 33]);
    // A party that never ran key-init cannot announce a completion.
    assert!(late_party.init_complete(vec![1]).is_err());

    // Acknowledgements arrive; with one per key-init party the run
    // moves to the resharing phase, since the threshold is below the
    // committee size.
    let ack1 = KeyInitAck { party_index: 1, key_share_verifying_key: vec![1; 33] };
    let ack2 = KeyInitAck { party_index: 2, key_share_verifying_key: vec![2; 33] };
    assert_eq!(late_party.ack_received(ack0.clone()), DkgPhase::CollectingAcks);
    assert_eq!(late_party.ack_received(ack1.clone()), DkgPhase::CollectingAcks);
    assert_eq!(late_party.ack_received(ack2.clone()), DkgPhase::Reshare);
    assert_eq!(init_party.ack_received(ack1), DkgPhase::CollectingAcks);
    assert_eq!(init_party.ack_received(ack2), DkgPhase::Reshare);

    // The init party reshares with its own share; the late party joins
    // without one and takes the account key advertised by party zero.
    let verifiers = vec![vkey(1), vkey(2), vkey(3), vkey(4), vkey(5)];
    let inputs = init_party.reshare_inputs(&verifiers).unwrap();
    assert!(inputs.has_old_share);
    assert_eq!(inputs.account_verifying_key, vec![9; 33]);
    let inputs = late_party.reshare_inputs(&verifiers).unwrap();
    assert!(!inputs.has_old_share);
    assert_eq!(inputs.account_verifying_key, vec![9; 33]);
    assert_eq!(inputs.old_holders.len(), 3);
    assert_eq!(inputs.new_holders.len(), 5);
}

#[test]
fn dkg_run_without_reshare_phase() {
    // With the threshold equal to the committee size the run ends at
    // the init share; there is no resharing phase.
    let parameters = Parameters::new(2, 2).unwrap();
    let mut party = DkgOrchestrator::new(parameters, 0);
    let ack0 = party.init_complete(vec![5; 33]).unwrap();
    let _ = ack0;
    let ack1 = KeyInitAck { party_index: 1, key_share_verifying_key: vec![5; 33] };
    assert_eq!(party.ack_received(ack1), DkgPhase::Done);
    let verifiers = vec![vkey(1), vkey(2)];
    assert!(party.reshare_inputs(&verifiers).is_err());
}

#[test]
fn dkg_run_with_threshold_one() {
    // The trivial key-init: one party generates, everyone reshares.
    let parameters = Parameters::new(3, 1).unwrap();
    let mut solo = DkgOrchestrator::new(parameters, 0);
    let ack = solo.init_complete(vec![3; 33]).unwrap();
    // The sole key-init party's own acknowledgement completes the set.
    let verifiers = vec![vkey(1), vkey(2), vkey(3)];
    let inputs = solo.reshare_inputs(&verifiers).unwrap();
    assert!(inputs.has_old_share);
    assert_eq!(inputs.old_holders.len(), 1);
    let mut other = DkgOrchestrator::new(parameters, 2);
    assert!(other.init_complete(vec![1]).is_err());
    assert_eq!(other.ack_received(ack), DkgPhase::Reshare);
}

#[test]
fn party_options_validate_membership_and_verifiers() {
    let participants = vec![vec![1; 32], vec![2; 32]];
    let verifiers = vec![vkey(1), vkey(2)];

    let ok = PartyOptions::new(vec![2; 32], participants.clone(), false, verifiers.clone())
        .unwrap();
    assert_eq!(ok.party_index(), Some(1));

    // A party that is not a participant is rejected.
    assert!(PartyOptions::new(vec![9; 32], participants.clone(), false, verifiers.clone())
        .is_err());

    // A verifier count differing from the participant count is rejected.
    assert!(PartyOptions::new(vec![1; 32], participants, true, vec![vkey(1)]).is_err());
}

#[test]
fn sign_run_follows_its_phases() {
    // Auxiliary info, then the signing rounds, then the check.
    let (phase, action) = sign_step(SignPhase::AuxGen, SignEvent::AuxGenComplete);
    assert_eq!(phase, SignPhase::Sign);
    assert_eq!(action, SignAction::RunSignRounds);
    let (phase, action) = sign_step(phase, SignEvent::SignatureProduced);
    assert_eq!(phase, SignPhase::Verify);
    assert_eq!(action, SignAction::CheckSignature);
    let (phase, action) = sign_step(phase, SignEvent::VerifySucceeded);
    assert_eq!(phase, SignPhase::Done);
    assert_eq!(action, SignAction::ReturnSignature);
}

#[test]
fn sign_run_never_returns_an_unverified_signature() {
    // A failed check ends the run with the verification error.
    let (phase, action) = sign_step(SignPhase::Verify, SignEvent::VerifyFailed);
    assert_eq!(phase, SignPhase::Done);
    assert_eq!(action, SignAction::FailVerifySignature);
    // Events outside their phase are ignored.
    let (phase, action) = sign_step(SignPhase::AuxGen, SignEvent::VerifySucceeded);
    assert_eq!(phase, SignPhase::AuxGen);
    assert_eq!(action, SignAction::Ignore);
}
