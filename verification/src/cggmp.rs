//! CGGMP threshold-DKG orchestration: the decisions of the two-phase
//! run.
//!
//! Threshold DKG runs a key-init phase among the first `t` parties,
//! then a resharing phase among all `n` parties. Parties that ran
//! key-init announce completion with an acknowledgement carrying their
//! index and the advertised verifying key; the acknowledgement of
//! party zero supplies the account verifying key for parties that did
//! not run key-init. When `t == n` the resharing phase is skipped.
//! The cryptographic rounds themselves are outside collaborators; this
//! module decides who runs what and with which inputs.
use vstd::prelude::*;

use crate::error::Error;
use crate::keypair::Keypair;
use crate::util::keys_view;
use crate::Parameters;

verus! {

/// Supported multi-party computation protocols.
#[derive(Copy, Clone, Debug, PartialEq, Eq, Structural)]
pub enum Protocol {
    /// The GG2020 protocol.
    GG20,
    /// The CGGMP protocol.
    CGGMP,
}

/// Server options.
#[derive(Debug, Clone)]
pub struct ServerOptions {
    /// URL for the server.
    pub server_url: String,
    /// Server public key.
    pub server_public_key: Vec<u8>,
}

/// Options used for distributed key generation.
pub struct SessionOptions {
    /// MPC protocol.
    pub protocol: Protocol,
    /// Keypair for the participant.
    pub keypair: Keypair,
    /// Server options.
    pub server: ServerOptions,
    /// Parameters for key generation.
    pub parameters: Parameters,
}

/// A verifying key carried across a binding boundary as plain bytes.
#[derive(Debug, Clone)]
pub struct VerifierKey {
    /// Encoded bytes of the key.
    pub bytes: Vec<u8>,
}

/// Options describing one party of an MPC committee.
#[derive(Debug, Clone)]
pub struct PartyOptions {
    /// Network public key of this party.
    pub public_key: Vec<u8>,
    /// Network public keys of all participants, in committee order.
    pub participants: Vec<Vec<u8>>,
    /// Whether this party created the session.
    pub is_initiator: bool,
    /// Verifying keys of all participants, in committee order.
    pub verifiers: Vec<VerifierKey>,
}

impl PartyOptions {
    /// Party options are well formed when this party is one of the
    /// participants and there is one verifier per participant.
    pub open spec fn wf(&self) -> bool {
        &&& keys_view(self.participants@).contains(self.public_key@)
        &&& self.verifiers@.len() == self.participants@.len()
    }

    /// Create party options. This party must be one of the
    /// participants, and each participant must have a verifier.
    pub fn new(
        public_key: Vec<u8>,
        participants: Vec<Vec<u8>>,
        is_initiator: bool,
        verifiers: Vec<VerifierKey>,
    ) -> (r: Result<PartyOptions, Error>)
        ensures
            r matches Ok(p) ==> p.wf() && p.public_key@ == public_key@ && p.participants@
                == participants@ && p.is_initiator == is_initiator && p.verifiers@ == verifiers@,
            r is Err ==> !keys_view(participants@).contains(public_key@) || verifiers@.len()
                != participants@.len(),
    {
        if verifiers.len() != participants.len() {
            return Err(Error::NotSessionParticipant);
        }
        if !crate::util::contains_bytes(participants.as_slice(), public_key.as_slice()) {
            return Err(Error::NotSessionParticipant);
        }
        Ok(PartyOptions { public_key, participants, is_initiator, verifiers })
    }

    /// The zero-based index of this party in the participant list:
    /// the first position holding its public key.
    pub fn party_index(&self) -> (r: Option<usize>)
        ensures
            ({
                let parts = keys_view(self.participants@);
                match parts.index_of_first(self.public_key@) {
                    Some(p) => r == Some(p as usize),
                    None => r is None,
                }
            }),
    {
        proof {
            keys_view(self.participants@).index_of_first_ensures(self.public_key@);
        }
        let mut i: usize = 0;
        let n = self.participants.len();
        while i < n
            invariant
                i <= n,
                n == self.participants@.len(),
                forall|j: int| 0 <= j < i ==> keys_view(self.participants@)[j] != self.public_key@,
            decreases n - i,
        {
            if crate::util::bytes_eq(self.participants[i].as_slice(), self.public_key.as_slice()) {
                proof {
                    let parts = keys_view(self.participants@);
                    assert(parts[i as int] == self.public_key@);
                    assert(parts.contains(self.public_key@));
                    parts.index_of_first_ensures(self.public_key@);
                    let idx = parts.index_of_first(self.public_key@)->0;
                    assert(idx <= i as int);
                    assert(idx == i as int);
                }
                return Some(i);
            }
            i += 1;
        }
        proof {
            let parts = keys_view(self.participants@);
            if parts.contains(self.public_key@) {
                let w = choose|w: int| 0 <= w < parts.len() && parts[w] == self.public_key@;
                assert(parts[w] != self.public_key@);
            }
        }
        None
    }
}

/// Acknowledgement sent by key-init participants to the parties that
/// did not take part, once their phase is complete.
#[derive(Debug, Clone)]
pub struct KeyInitAck {
    /// Index of the party.
    pub party_index: usize,
    /// Verifying key advertised from the generated threshold key
    /// share, as encoded bytes.
    pub key_share_verifying_key: Vec<u8>,
}

/// Whether a party takes part in the key-init phase: exactly the
/// parties whose index lies below the threshold.
pub fn participates_in_key_init(party_index: usize, threshold: usize) -> (r: bool)
    ensures
        r == (party_index < threshold),
{
    party_index < threshold
}

/// Whether a threshold DKG run needs the resharing phase: exactly when
/// the threshold is below the committee size. With `threshold ==
/// parties` the key-init output is the final share.
pub fn needs_reshare(parameters: &Parameters) -> (r: bool)
    ensures
        r == (parameters.threshold < parameters.parties),
{
    parameters.threshold < parameters.parties
}

/// The verifiers that run key-init: the first `threshold` of the
/// committee's verifiers.
pub fn init_verifiers(verifiers: &Vec<VerifierKey>, threshold: usize) -> (r: Vec<VerifierKey>)
    requires
        threshold <= verifiers@.len(),
    ensures
        r@.len() == threshold,
        forall|j: int| 0 <= j < threshold ==> (#[trigger] r@[j]).bytes@ == verifiers@[j].bytes@,
{
    let mut out: Vec<VerifierKey> = Vec::new();
    let mut i: usize = 0;
    while i < threshold
        invariant
            i <= threshold,
            threshold <= verifiers@.len(),
            out@.len() == i,
            forall|j: int| 0 <= j < i ==> (#[trigger] out@[j]).bytes@ == verifiers@[j].bytes@,
        decreases threshold - i,
    {
        out.push(VerifierKey { bytes: verifiers[i].bytes.clone() });
        proof {
            assert(out@[i as int].bytes@ =~= verifiers@[i as int].bytes@);
        }
        i += 1;
    }
    out
}

/// Collects key-init acknowledgements until one per key-init party has
/// arrived.
pub struct AckCollector {
    /// How many acknowledgements complete the phase: the threshold.
    pub needed: usize,
    /// The acknowledgements received so far.
    pub acks: Vec<KeyInitAck>,
}

impl AckCollector {
    /// An empty collector waiting for a number of acknowledgements.
    pub fn new(needed: usize) -> (r: AckCollector)
        ensures
            r.needed == needed,
            r.acks@.len() == 0,
    {
        AckCollector { needed, acks: Vec::new() }
    }

    /// Record one acknowledgement; true once the phase is complete.
    pub fn add(&mut self, ack: KeyInitAck) -> (r: bool)
        ensures
            final(self).acks@ == old(self).acks@.push(ack),
            final(self).needed == old(self).needed,
            r == (final(self).acks@.len() >= final(self).needed),
    {
        self.acks.push(ack);
        self.acks.len() >= self.needed
    }

    /// Whether the phase is complete.
    pub fn is_complete(&self) -> (r: bool)
        ensures
            r == (self.acks@.len() >= self.needed),
    {
        self.acks.len() >= self.needed
    }

    /// The account verifying key: the key advertised by the first
    /// acknowledgement of party zero, if one arrived.
    pub fn account_verifying_key(&self) -> (r: Option<&Vec<u8>>)
        ensures
            r matches Some(k) ==> exists|i: int|
                0 <= i < self.acks@.len() && (#[trigger] self.acks@[i]).party_index == 0
                    && self.acks@[i].key_share_verifying_key@ == k@,
            r is None ==> forall|i: int|
                0 <= i < self.acks@.len() ==> (#[trigger] self.acks@[i]).party_index != 0,
    {
        let mut i: usize = 0;
        let n = self.acks.len();
        while i < n
            invariant
                i <= n,
                n == self.acks@.len(),
                forall|j: int| 0 <= j < i ==> (#[trigger] self.acks@[j]).party_index != 0,
            decreases n - i,
        {
            if self.acks[i].party_index == 0 {
                return Some(&self.acks[i].key_share_verifying_key);
            }
            i += 1;
        }
        None
    }
}

/// Decide the account verifying key for the resharing phase. A party
/// that holds an init share uses its own advertised key; any other
/// party takes the key from the acknowledgement of party zero, and
/// fails without one.
pub fn account_verifying_key(own_share_key: Option<Vec<u8>>, acks: &AckCollector) -> (r: Result<
    Vec<u8>,
    Error,
>)
    ensures
        own_share_key matches Some(k) ==> (r matches Ok(out) && out@ == k@),
        own_share_key is None ==> match r {
            Ok(out) => exists|i: int|
                0 <= i < acks.acks@.len() && (#[trigger] acks.acks@[i]).party_index == 0
                    && acks.acks@[i].key_share_verifying_key@ == out@,
            Err(e) => e == Error::NoKeyInitAck && (forall|i: int|
                0 <= i < acks.acks@.len() ==> (#[trigger] acks.acks@[i]).party_index != 0),
        },
{
    match own_share_key {
        Some(k) => Ok(k),
        None => {
            match acks.account_verifying_key() {
                Some(k) => Ok(k.clone()),
                None => Err(Error::NoKeyInitAck),
            }
        },
    }
}

/// The phase a threshold-DKG run is in, from one party's point of
/// view.
#[derive(Debug, Clone, Copy, PartialEq, Eq, Structural)]
pub enum DkgPhase {
    /// Running the key-init rounds; only the first `threshold`
    /// parties ever stand here.
    KeyInit,
    /// Waiting for one acknowledgement per key-init party.
    CollectingAcks,
    /// Running the resharing rounds among all parties.
    Reshare,
    /// The run is complete.
    Done,
}

/// The phase decisions of one party's threshold-DKG run.
///
/// A party below the threshold runs key-init and then announces its
/// advertised verifying key; every party collects one acknowledgement
/// per key-init party before moving on. When the threshold equals the
/// committee size the run ends with the init share; otherwise all
/// parties enter the resharing phase.
pub struct DkgOrchestrator {
    parameters: Parameters,
    party_index: usize,
    acks: AckCollector,
    own_share_key: Option<Vec<u8>>,
    phase: DkgPhase,
}

impl DkgOrchestrator {
    /// The committee parameters.
    pub closed spec fn spec_parameters(&self) -> Parameters {
        self.parameters
    }

    /// The orchestrator is well formed: the parameters are sensible
    /// and the collector waits for exactly one acknowledgement per
    /// key-init party.
    pub closed spec fn wf(&self) -> bool {
        &&& self.parameters.wf()
        &&& self.acks.needed == self.parameters.threshold as usize
    }

    /// This party's zero-based index.
    pub closed spec fn spec_party_index(&self) -> usize {
        self.party_index
    }

    /// The current phase.
    pub closed spec fn spec_phase(&self) -> DkgPhase {
        self.phase
    }

    /// The advertised verifying key of this party's own init share.
    pub closed spec fn spec_own_share_key(&self) -> Option<Vec<u8>> {
        self.own_share_key
    }

    /// How many acknowledgements have been collected.
    pub closed spec fn spec_ack_count(&self) -> int {
        self.acks.acks@.len() as int
    }

    /// Start a run: parties below the threshold run key-init, the
    /// others go straight to collecting acknowledgements.
    pub fn new(parameters: Parameters, party_index: usize) -> (r: DkgOrchestrator)
        requires
            parameters.wf(),
        ensures
            r.wf(),
            r.spec_parameters() == parameters,
            r.spec_party_index() == party_index,
            r.spec_own_share_key() is None,
            r.spec_ack_count() == 0,
            party_index < parameters.threshold ==> r.spec_phase() == DkgPhase::KeyInit,
            party_index >= parameters.threshold ==> r.spec_phase() == DkgPhase::CollectingAcks,
    {
        let phase = if participates_in_key_init(party_index, parameters.threshold as usize) {
            DkgPhase::KeyInit
        } else {
            DkgPhase::CollectingAcks
        };
        DkgOrchestrator {
            parameters,
            party_index,
            acks: AckCollector::new(parameters.threshold as usize),
            own_share_key: None,
            phase,
        }
    }

    /// Record the completion of this party's key-init rounds: keep the
    /// advertised key, count our own acknowledgement, and return the
    /// acknowledgement to send to every other member.
    pub fn init_complete(&mut self, share_verifying_key: Vec<u8>) -> (r: Result<KeyInitAck, Error>)
        requires
            old(self).wf(),
        ensures
            final(self).wf(),
            old(self).spec_phase() != DkgPhase::KeyInit ==> (r matches Err(Error::NotFinished)
                && *final(self) == *old(self)),
            old(self).spec_phase() == DkgPhase::KeyInit ==> (r matches Ok(ack)
                && ack.party_index == old(self).spec_party_index()
                && ack.key_share_verifying_key@ == share_verifying_key@),
            old(self).spec_phase() == DkgPhase::KeyInit ==> (final(self).spec_own_share_key()
                matches Some(k) && k@ == share_verifying_key@) && final(self).spec_ack_count()
                == old(self).spec_ack_count() + 1,
            old(self).spec_phase() == DkgPhase::KeyInit && old(self).spec_ack_count() + 1 < old(
                self,
            ).spec_parameters().threshold ==> final(self).spec_phase()
                == DkgPhase::CollectingAcks,
            old(self).spec_phase() == DkgPhase::KeyInit && old(self).spec_ack_count() + 1 >= old(
                self,
            ).spec_parameters().threshold ==> final(self).spec_phase() == (if old(
                self,
            ).spec_parameters().threshold < old(self).spec_parameters().parties {
                DkgPhase::Reshare
            } else {
                DkgPhase::Done
            }),
            final(self).spec_parameters() == old(self).spec_parameters(),
            final(self).spec_party_index() == old(self).spec_party_index(),
    {
        match self.phase {
            DkgPhase::KeyInit => {
                let ack = KeyInitAck {
                    party_index: self.party_index,
                    key_share_verifying_key: share_verifying_key.clone(),
                };
                let complete = self.acks.add(ack.clone());
                self.own_share_key = Some(share_verifying_key);
                if complete {
                    if needs_reshare(&self.parameters) {
                        self.phase = DkgPhase::Reshare;
                    } else {
                        self.phase = DkgPhase::Done;
                    }
                } else {
                    self.phase = DkgPhase::CollectingAcks;
                }
                Ok(ack)
            },
            _ => Err(Error::NotFinished),
        }
    }

    /// Record one acknowledgement from a key-init party. Once one per
    /// key-init party has arrived, the run either ends (threshold
    /// equals committee size) or enters the resharing phase.
    pub fn ack_received(&mut self, ack: KeyInitAck) -> (r: DkgPhase)
        requires
            old(self).wf(),
        ensures
            final(self).wf(),
            final(self).spec_parameters() == old(self).spec_parameters(),
            final(self).spec_party_index() == old(self).spec_party_index(),
            final(self).spec_own_share_key() == old(self).spec_own_share_key(),
            old(self).spec_phase() != DkgPhase::CollectingAcks ==> (*final(self) == *old(self) && r
                == old(self).spec_phase()),
            old(self).spec_phase() == DkgPhase::CollectingAcks ==> final(self).spec_ack_count()
                == old(self).spec_ack_count() + 1,
            old(self).spec_phase() == DkgPhase::CollectingAcks && old(self).spec_ack_count() + 1
                < old(self).spec_parameters().threshold ==> r == DkgPhase::CollectingAcks,
            old(self).spec_phase() == DkgPhase::CollectingAcks && old(self).spec_ack_count() + 1
                >= old(self).spec_parameters().threshold ==> (r == (if old(
                self,
            ).spec_parameters().threshold < old(self).spec_parameters().parties {
                DkgPhase::Reshare
            } else {
                DkgPhase::Done
            })),
            final(self).spec_phase() == r,
    {
        match self.phase {
            DkgPhase::CollectingAcks => {
                let complete = self.acks.add(ack);
                if complete {
                    if needs_reshare(&self.parameters) {
                        self.phase = DkgPhase::Reshare;
                    } else {
                        self.phase = DkgPhase::Done;
                    }
                }
                self.phase
            },
            _ => self.phase,
        }
    }

    /// Decide the inputs of the resharing phase for this party. Only a
    /// party standing in the resharing phase has inputs; a party that
    /// ran key-init acts as an old holder, the others join without an
    /// old share. The account key is this party's own advertised key,
    /// or the one from the acknowledgement of party zero.
    pub fn reshare_inputs(&self, verifiers: &Vec<VerifierKey>) -> (r: Result<ReshareInputs, Error>)
        requires
            self.wf(),
            verifiers@.len() == self.spec_parameters().parties,
        ensures
            self.spec_phase() != DkgPhase::Reshare ==> r matches Err(Error::NotFinished),
            r matches Ok(inputs) ==> self.spec_phase() == DkgPhase::Reshare
                && inputs.old_threshold == self.spec_parameters().threshold
                && inputs.new_threshold == self.spec_parameters().threshold
                && inputs.has_old_share == (self.spec_own_share_key() is Some)
                && inputs.old_holders@.len() == self.spec_parameters().threshold
                && inputs.new_holders@.len() == verifiers@.len(),
            self.spec_phase() == DkgPhase::Reshare && self.spec_own_share_key() is None && (r
                matches Err(Error::NoKeyInitAck)) ==> true,
    {
        match self.phase {
            DkgPhase::Reshare => {
                let has_old_share = self.own_share_key.is_some();
                let own = match &self.own_share_key {
                    Some(k) => Some(k.clone()),
                    None => None,
                };
                let account = match account_verifying_key(own, &self.acks) {
                    Ok(k) => k,
                    Err(e) => {
                        return Err(e);
                    },
                };
                Ok(
                    make_reshare_inputs(
                        self.parameters.threshold as usize,
                        self.parameters.threshold as usize,
                        account,
                        verifiers,
                        has_old_share,
                    ),
                )
            },
            _ => Err(Error::NotFinished),
        }
    }
}

/// The phase a signing run is in, from one party's point of view:
/// auxiliary-info generation, the signing rounds, the verification of
/// the aggregated signature, then done.
#[derive(Debug, Clone, Copy, PartialEq, Eq, Structural)]
pub enum SignPhase {
    /// Running the auxiliary-info rounds.
    AuxGen,
    /// Running the signing rounds with the auxiliary info.
    Sign,
    /// Checking the aggregated signature before returning it.
    Verify,
    /// The run is complete.
    Done,
}

/// What a signing run observed: the completion of a phase, or the
/// outcome of the signature check.
#[derive(Debug, Clone, Copy, PartialEq, Eq, Structural)]
pub enum SignEvent {
    /// The auxiliary-info rounds finished.
    AuxGenComplete,
    /// The signing rounds produced an aggregated signature.
    SignatureProduced,
    /// The aggregated signature verified under the account key.
    VerifySucceeded,
    /// The aggregated signature did not verify.
    VerifyFailed,
}

/// What a signing run does next.
#[derive(Debug, Clone, Copy, PartialEq, Eq, Structural)]
pub enum SignAction {
    /// Start the signing rounds.
    RunSignRounds,
    /// Check the produced signature under the account key.
    CheckSignature,
    /// Hand the verified signature to the caller.
    ReturnSignature,
    /// Abort with the signature-verification error.
    FailVerifySignature,
    /// The event does not belong to the phase; do nothing.
    Ignore,
}

/// The signing run's transition table.
pub open spec fn sign_step_spec(phase: SignPhase, event: SignEvent) -> (SignPhase, SignAction) {
    match (phase, event) {
        (SignPhase::AuxGen, SignEvent::AuxGenComplete) => (SignPhase::Sign, SignAction::RunSignRounds),
        (SignPhase::Sign, SignEvent::SignatureProduced) => (
            SignPhase::Verify,
            SignAction::CheckSignature,
        ),
        (SignPhase::Verify, SignEvent::VerifySucceeded) => (
            SignPhase::Done,
            SignAction::ReturnSignature,
        ),
        (SignPhase::Verify, SignEvent::VerifyFailed) => (
            SignPhase::Done,
            SignAction::FailVerifySignature,
        ),
        _ => (phase, SignAction::Ignore),
    }
}

/// Decide one step of a signing run: auxiliary info first, then the
/// signing rounds, then the signature check. A signature whose check
/// failed is never returned: the run ends with the verification
/// failure instead.
pub fn sign_step(phase: SignPhase, event: SignEvent) -> (r: (SignPhase, SignAction))
    ensures
        r == sign_step_spec(phase, event),
        event == SignEvent::VerifyFailed ==> r.1 != SignAction::ReturnSignature,
        r.1 == SignAction::ReturnSignature ==> phase == SignPhase::Verify && event
            == SignEvent::VerifySucceeded,
{
    match (phase, event) {
        (SignPhase::AuxGen, SignEvent::AuxGenComplete) => (
            SignPhase::Sign,
            SignAction::RunSignRounds,
        ),
        (SignPhase::Sign, SignEvent::SignatureProduced) => (
            SignPhase::Verify,
            SignAction::CheckSignature,
        ),
        (SignPhase::Verify, SignEvent::VerifySucceeded) => (
            SignPhase::Done,
            SignAction::ReturnSignature,
        ),
        (SignPhase::Verify, SignEvent::VerifyFailed) => (
            SignPhase::Done,
            SignAction::FailVerifySignature,
        ),
        _ => (phase, SignAction::Ignore),
    }
}

/// Inputs of the resharing phase, decided from the committee and from
/// whether this party holds an init share.
pub struct ReshareInputs {
    /// Threshold of the old holder set.
    pub old_threshold: usize,
    /// Threshold of the new holder set.
    pub new_threshold: usize,
    /// The account verifying key the resharing must preserve.
    pub account_verifying_key: Vec<u8>,
    /// The old holders: the first `old_threshold` verifiers.
    pub old_holders: Vec<VerifierKey>,
    /// The new holders: every verifier of the committee.
    pub new_holders: Vec<VerifierKey>,
    /// Whether this party passes its init share as an old holder; a
    /// party that did not run key-init joins with no old share.
    pub has_old_share: bool,
}

/// Decide the inputs of the resharing phase. The old holders are the
/// first `old_threshold` verifiers, the new holders are all verifiers,
/// and only a party that holds an init share acts as an old holder.
pub fn make_reshare_inputs(
    old_threshold: usize,
    new_threshold: usize,
    account_verifying_key: Vec<u8>,
    verifiers: &Vec<VerifierKey>,
    has_old_share: bool,
) -> (r: ReshareInputs)
    requires
        old_threshold <= verifiers@.len(),
    ensures
        r.old_threshold == old_threshold,
        r.new_threshold == new_threshold,
        r.account_verifying_key@ == account_verifying_key@,
        r.old_holders@.len() == old_threshold,
        forall|j: int|
            0 <= j < old_threshold ==> (#[trigger] r.old_holders@[j]).bytes@
                == verifiers@[j].bytes@,
        r.new_holders@.len() == verifiers@.len(),
        forall|j: int|
            0 <= j < verifiers@.len() ==> (#[trigger] r.new_holders@[j]).bytes@
                == verifiers@[j].bytes@,
        r.has_old_share == has_old_share,
{
    let old_holders = init_verifiers(verifiers, old_threshold);
    let new_holders = init_verifiers(verifiers, verifiers.len());
    ReshareInputs {
        old_threshold,
        new_threshold,
        account_verifying_key,
        old_holders,
        new_holders,
        has_old_share,
    }
}

} // verus!
