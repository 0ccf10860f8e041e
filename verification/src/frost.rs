//! FROST-Ed25519 drivers: distributed key generation and signing.
//!
//! Key generation is a three-round protocol: round one broadcasts a
//! public commitment package, round two sends one secret package to
//! each other participant, round three locally derives the key share
//! from the collected packages. Signing follows commit, share, and
//! aggregate. The cryptography is carried out by the frost-ed25519
//! library; this module verifies the round bookkeeping around it.
use vstd::prelude::*;

use crate::driver::{Bridge, ProtocolDriver, RoundInfo, RoundMessage};
use crate::error::Error;
use crate::session::{SessionId, SessionState};
use crate::util::{distinct_keys, insert_keyed, keys_of, lemma_insert_keyed_bound};

verus! {

/// An Ed25519 signing key.
#[verifier::external_type_specification]
#[verifier::external_body]
pub struct ExSigningKey(ed25519_dalek::SigningKey);

/// An Ed25519 verifying key.
#[verifier::external_type_specification]
#[verifier::external_body]
pub struct ExVerifyingKey(ed25519_dalek::VerifyingKey);

/// Identifier of a FROST participant. Holds the library's opaque
/// participant identifier; the declaration of the generic library
/// type itself needs a trait bound this crate cannot state.
#[verifier::external_body]
pub struct Identifier {
    inner: frost_ed25519::Identifier,
}

/// Public commitment package broadcast in the first DKG round.
#[verifier::external_body]
pub struct DkgRound1Package {
    inner: frost_ed25519::keys::dkg::round1::Package,
}

/// Secret state kept between the first and second DKG rounds.
#[verifier::external_body]
pub struct DkgRound1Secret {
    inner: frost_ed25519::keys::dkg::round1::SecretPackage,
}

/// Per-recipient secret package sent in the second DKG round.
#[verifier::external_body]
pub struct DkgRound2Package {
    inner: frost_ed25519::keys::dkg::round2::Package,
}

/// Secret state kept between the second and third DKG rounds.
#[verifier::external_body]
pub struct DkgRound2Secret {
    inner: frost_ed25519::keys::dkg::round2::SecretPackage,
}

/// A participant's long-lived FROST key package.
#[verifier::external_body]
pub struct KeyPackage {
    inner: frost_ed25519::keys::KeyPackage,
}

/// The group public key material of a FROST committee.
#[verifier::external_body]
pub struct PublicKeyPackage {
    inner: frost_ed25519::keys::PublicKeyPackage,
}

/// Signing nonces kept by a participant during one signing run.
#[verifier::external_body]
pub struct SigningNonces {
    inner: frost_ed25519::round1::SigningNonces,
}

/// Signing commitments broadcast in the first signing round.
#[verifier::external_body]
pub struct SigningCommitments {
    inner: frost_ed25519::round1::SigningCommitments,
}

/// A participant's share of the final signature.
#[verifier::external_body]
pub struct SignatureShare {
    inner: frost_ed25519::round2::SignatureShare,
}

/// Message and commitments handed to each signer in round two.
#[verifier::external_body]
pub struct SigningPackage {
    inner: frost_ed25519::SigningPackage,
}

/// An aggregated Ed25519 Schnorr signature.
#[verifier::external_body]
pub struct Signature {
    inner: frost_ed25519::Signature,
}

/// Relies on frost_ed25519::Identifier::try_from(u16): a nonzero
/// party number has an identifier; zero is rejected.
#[verifier::external_body]
pub fn identifier_from_u16(n: u16) -> (r: Result<Identifier, Error>)
    ensures
        r is Ok <==> n != 0,
{
    match frost_ed25519::Identifier::try_from(n) {
        Ok(inner) => Ok(Identifier { inner }),
        Err(e) => Err(Error::LocalError(e.to_string())),
    }
}

/// Relies on Identifier's Copy: the same participant identifier.
#[verifier::external_body]
pub fn clone_identifier(id: &Identifier) -> (r: Identifier)
    ensures
        r == *id,
{
    Identifier { inner: id.inner }
}

/// Relies on ed25519_dalek::SigningKey::generate: a fresh random
/// Ed25519 signing key.
#[verifier::external_body]
pub fn generate_signing_key() -> (r: ed25519_dalek::SigningKey) {
    ed25519_dalek::SigningKey::generate(&mut rand::rngs::OsRng)
}

/// Relies on ed25519_dalek::SigningKey::verifying_key: the public
/// counterpart of a signing key.
#[verifier::external_body]
pub fn verifying_key_of(signer: &ed25519_dalek::SigningKey) -> (r: ed25519_dalek::VerifyingKey) {
    signer.verifying_key()
}

/// Relies on ed25519_dalek::VerifyingKey's equality (equality of the
/// compressed point bytes of this plain value type) through
/// Iterator::position: the position of the first element equal to the
/// target, if any; a miss means no element equals the target.
#[verifier::external_body]
fn verifier_index(
    verifiers: &Vec<ed25519_dalek::VerifyingKey>,
    target: &ed25519_dalek::VerifyingKey,
) -> (r: Option<usize>)
    ensures
        r matches Some(i) ==> i < verifiers@.len() && verifiers@[i as int] == *target,
        r is None ==> !verifiers@.contains(*target),
{
    verifiers.iter().position(|v| v == target)
}

/// Relies on frost_ed25519::keys::dkg::part1: the first DKG round,
/// producing this participant's secret state and the public
/// commitment package to broadcast. Success depends on the signer
/// counts alone: the parameters are validated (at least two signers,
/// threshold not above the count), and the random nonce and secret are
/// drawn nonzero, so no other failure is reachable for this
/// ciphersuite. Errors are reported as local protocol errors.
#[verifier::external_body]
fn dkg_part1(id: &Identifier, max_signers: u16, min_signers: u16) -> (r: Result<
    (DkgRound1Secret, DkgRound1Package),
    Error,
>)
    ensures
        r is Ok <==> 2 <= min_signers <= max_signers,
        r matches Err(e) ==> e is LocalError,
{
    match frost_ed25519::keys::dkg::part1(
        id.inner,
        max_signers,
        min_signers,
        &mut rand::rngs::OsRng,
    ) {
        Ok((secret, package)) => Ok(
            (DkgRound1Secret { inner: secret }, DkgRound1Package { inner: package }),
        ),
        Err(e) => Err(Error::LocalError(e.to_string())),
    }
}

/// Relies on DkgRound1Package's Clone: an equal copy of the
/// broadcast commitment package, one for each recipient.
#[verifier::external_body]
fn clone_round1_package(p: &DkgRound1Package) -> (r: DkgRound1Package)
    ensures
        r == *p,
{
    DkgRound1Package { inner: p.inner.clone() }
}

/// Relies on frost_ed25519::keys::dkg::part2: the second DKG round,
/// which checks one commitment package per other participant and
/// produces one secret package for each of them. On success the
/// wrapper hands back exactly one outgoing package per received entry,
/// under the same key in the same order; a run where the library did
/// not produce a package for some received entry (as with duplicate
/// senders) is reported as a local protocol error.
#[verifier::external_body]
fn dkg_part2(
    secret: DkgRound1Secret,
    received: &Vec<(u16, DkgRound1Package)>,
    identifiers: &Vec<Identifier>,
) -> (r: Result<(DkgRound2Secret, Vec<(u16, DkgRound2Package)>), Error>)
    requires
        forall|k: int| 0 <= k < received@.len() ==> (received@[k].0 as int) < identifiers@.len(),
    ensures
        r matches Ok(out) ==> keys_of(out.1@) == keys_of(received@),
        r matches Err(e) ==> e is LocalError,
{
    let map: std::collections::BTreeMap<_, _> =
        received.iter().map(|e| (identifiers[e.0 as usize].inner, e.1.inner.clone())).collect();
    let (s2, mut pkgs) = frost_ed25519::keys::dkg::part2(secret.inner, &map).map_err(
        |e| Error::LocalError(e.to_string()),
    )?;
    let mut out = Vec::new();
    for e in received.iter() {
        let p = pkgs.remove(&identifiers[e.0 as usize].inner).ok_or(Error::LocalError(
            "no package for a recipient".to_string(),
        ))?;
        out.push((e.0, DkgRound2Package { inner: p }));
    }
    Ok((DkgRound2Secret { inner: s2 }, out))
}

/// Relies on frost_ed25519::keys::dkg::part3: the final DKG round,
/// which verifies the collected packages and derives this
/// participant's key package and the group public key package. Errors
/// are reported as local protocol errors.
#[verifier::external_body]
fn dkg_part3(
    secret: &DkgRound2Secret,
    received1: &Vec<(u16, DkgRound1Package)>,
    received2: &Vec<(u16, DkgRound2Package)>,
    identifiers: &Vec<Identifier>,
) -> (r: Result<KeyShare, Error>)
    requires
        forall|k: int| 0 <= k < received1@.len() ==> (received1@[k].0 as int) < identifiers@.len(),
        forall|k: int| 0 <= k < received2@.len() ==> (received2@[k].0 as int) < identifiers@.len(),
    ensures
        r matches Err(e) ==> e is LocalError,
{
    let map1: std::collections::BTreeMap<_, _> =
        received1.iter().map(|e| (identifiers[e.0 as usize].inner, e.1.inner.clone())).collect();
    let map2: std::collections::BTreeMap<_, _> =
        received2.iter().map(|e| (identifiers[e.0 as usize].inner, e.1.inner.clone())).collect();
    match frost_ed25519::keys::dkg::part3(&secret.inner, &map1, &map2) {
        Ok((kp, pkp)) => Ok(
            KeyShare {
                key_package: KeyPackage { inner: kp },
                public_key_package: PublicKeyPackage { inner: pkp },
            },
        ),
        Err(e) => Err(Error::LocalError(e.to_string())),
    }
}

/// A participant's FROST key share: the private key package and the
/// group's public key package.
pub struct KeyShare {
    /// This participant's long-lived key package.
    pub key_package: KeyPackage,
    /// The committee's public key material.
    pub public_key_package: PublicKeyPackage,
}

/// Relies on Identifier's equality (equality of the underlying scalar
/// of this plain value type) through Iterator::position: the position
/// of the first identifier equal to the target, if any; a miss means
/// no element equals the target.
#[verifier::external_body]
fn identifier_index(identifiers: &Vec<Identifier>, target: &Identifier) -> (r: Option<usize>)
    ensures
        r matches Some(i) ==> i < identifiers@.len() && identifiers@[i as int] == *target,
        r is None ==> !identifiers@.contains(*target),
{
    identifiers.iter().position(|x| x.inner == target.inner)
}

/// The recorded keys after one keyed insertion: the old keys with `k`
/// (below the bound) appearing, newly pushed unless already present.
pub open spec fn keys_after_insert(
    old_keys: Seq<u16>,
    new_keys: Seq<u16>,
    k: u16,
    bound: int,
) -> bool {
    &&& (k as int) < bound
    &&& new_keys == (if old_keys.contains(k) {
        old_keys
    } else {
        old_keys.push(k)
    })
}

/// The new keys record, on top of the old keys, exactly the slot of
/// the sender in the sender list (newly pushed unless already
/// present), below the bound.
pub open spec fn records_key_of<S>(
    old_keys: Seq<u16>,
    new_keys: Seq<u16>,
    senders: Seq<S>,
    sender: S,
    bound: int,
) -> bool {
    exists|k: u16|
        #[trigger] keys_after_insert(old_keys, new_keys, k, bound) && 0 <= (k as int)
            < senders.len() && senders[k as int] == sender
}

/// Round message payloads of the DKG protocol.
pub enum DkgPackage {
    /// The public commitment package of the first round.
    Round1(DkgRound1Package),
    /// A per-recipient secret package of the second round.
    Round2(DkgRound2Package),
}

/// FROST keygen driver.
///
/// Received packages are kept by the sender's zero-based position in
/// the identifier list; a package for a round ahead of the current
/// one is cached there until its round is reached.
pub struct KeyGenDriver {
    party_number: u16,
    max_signers: u16,
    min_signers: u16,
    identifiers: Vec<Identifier>,
    id: Identifier,
    round_number: u8,
    round1_secret: Option<DkgRound1Secret>,
    received_round1: Vec<(u16, DkgRound1Package)>,
    round2_secret: Option<DkgRound2Secret>,
    received_round2: Vec<(u16, DkgRound2Package)>,
}

impl KeyGenDriver {
    /// The number of participants.
    pub closed spec fn spec_parties(&self) -> int {
        self.identifiers@.len() as int
    }

    /// This participant's one-based party number.
    pub closed spec fn spec_party_number(&self) -> u16 {
        self.party_number
    }

    /// The keys under which first-round packages have been recorded.
    pub closed spec fn spec_round1_keys(&self) -> Seq<u16> {
        keys_of(self.received_round1@)
    }

    /// The keys under which second-round packages have been recorded.
    pub closed spec fn spec_round2_keys(&self) -> Seq<u16> {
        keys_of(self.received_round2@)
    }

    /// The smallest number of signers the run is for.
    pub closed spec fn spec_min_signers(&self) -> u16 {
        self.min_signers
    }

    /// The committee size the run is for.
    pub closed spec fn spec_max_signers(&self) -> u16 {
        self.max_signers
    }

    /// The participant identifiers, in committee order.
    pub closed spec fn spec_identifiers(&self) -> Seq<Identifier> {
        self.identifiers@
    }

    /// Whether the first-round secret state is still held.
    pub closed spec fn spec_has_round1_secret(&self) -> bool {
        self.round1_secret is Some
    }

    /// Whether the second-round secret state is still held.
    pub closed spec fn spec_has_round2_secret(&self) -> bool {
        self.round2_secret is Some
    }

    /// This participant's own protocol identifier.
    pub closed spec fn spec_self_id(&self) -> Identifier {
        self.id
    }

    /// Create a key generator. The party number must name a position
    /// in the identifier list.
    pub fn new(
        party_number: u16,
        max_signers: u16,
        min_signers: u16,
        identifiers: Vec<Identifier>,
    ) -> (r: Result<KeyGenDriver, Error>)
        requires
            identifiers@.len() <= u16::MAX,
        ensures
            party_number == 0 || party_number > identifiers@.len() ==> (r matches Err(
                Error::IndexIdentifier(i),
            ) && i == party_number as usize),
            1 <= party_number <= identifiers@.len() ==> (r matches Ok(d) && d.wf()
                && d.spec_round() == 1 && d.spec_party_number() == party_number
                && d.spec_parties() == identifiers@.len() && d.spec_round1_keys().len() == 0
                && d.spec_round2_keys().len() == 0 && d.spec_min_signers() == min_signers
                && d.spec_max_signers() == max_signers && d.spec_identifiers() == identifiers@
                && d.spec_self_id() == identifiers@[party_number - 1]
                && !d.spec_has_round1_secret() && !d.spec_has_round2_secret()),
    {
        if party_number == 0 {
            return Err(Error::IndexIdentifier(party_number as usize));
        }
        let self_index = (party_number - 1) as usize;
        if self_index >= identifiers.len() {
            return Err(Error::IndexIdentifier(party_number as usize));
        }
        let id = clone_identifier(&identifiers[self_index]);
        Ok(
            KeyGenDriver {
                party_number,
                max_signers,
                min_signers,
                identifiers,
                id,
                round_number: 1,
                round1_secret: None,
                received_round1: Vec::new(),
                round2_secret: None,
                received_round2: Vec::new(),
            },
        )
    }
}

impl ProtocolDriver for KeyGenDriver {
    type Message = RoundMessage<DkgPackage, Identifier>;

    type Output = KeyShare;

    closed spec fn wf(&self) -> bool {
        &&& 1 <= self.round_number <= 3
        &&& 1 <= self.party_number
        &&& self.party_number <= self.identifiers@.len()
        &&& self.identifiers@.len() <= u16::MAX
        &&& distinct_keys(self.received_round1@)
        &&& distinct_keys(self.received_round2@)
        &&& (forall|k: int|
            0 <= k < self.received_round1@.len() ==> ((#[trigger] self.received_round1@[k]).0
                as int) < self.identifiers@.len())
        &&& (forall|k: int|
            0 <= k < self.received_round2@.len() ==> ((#[trigger] self.received_round2@[k]).0
                as int) < self.identifiers@.len())
    }

    closed spec fn spec_round(&self) -> u8 {
        self.round_number
    }

    closed spec fn spec_can_finalize(&self) -> bool {
        ||| self.round_number == 2 && keys_of(self.received_round1@).len()
            == self.identifiers@.len() - 1
        ||| self.round_number == 3 && keys_of(self.received_round2@).len()
            == self.identifiers@.len() - 1
    }

    fn round_info(&self) -> (r: Result<RoundInfo, Error>)
        ensures
            r matches Ok(info) && info == (RoundInfo {
                round_number: self.spec_round(),
                can_finalize: self.spec_can_finalize(),
                is_echo: false,
            }),
    {
        let needs = self.identifiers.len() - 1;
        let can_finalize = if self.round_number == 2 {
            self.received_round1.len() == needs
        } else if self.round_number == 3 {
            self.received_round2.len() == needs
        } else {
            false
        };
        Ok(RoundInfo { round_number: self.round_number, can_finalize, is_echo: false })
    }

    fn proceed(&mut self) -> (r: Result<Vec<Self::Message>, Error>)
        ensures
            old(self).spec_round() != 1 && old(self).spec_round() != 2 ==> (r matches Err(
                Error::InvalidRound(n),
            ) && n == old(self).spec_round() && *final(self) == *old(self)),
            old(self).spec_round() == 1 ==> (r is Ok <==> 2 <= old(self).spec_min_signers()
                <= old(self).spec_max_signers()),
            old(self).spec_round() == 1 ==> (r matches Err(e) ==> e is LocalError && *final(self)
                == *old(self)),
            old(self).spec_round() == 1 ==> (r matches Ok(msgs) ==> msgs@.len() == old(self).spec_parties() - 1 && (forall|k: int|
                0 <= k < msgs@.len() ==> (#[trigger] msgs@[k]).round == 1 && msgs@[k].body
                    is Round1 && msgs@[k].body == msgs@[0].body && msgs@[k].sender == old(self).spec_self_id()
                    && msgs@[k].receiver as int == (if k + 1 < old(self).spec_party_number() as int {
                    k + 1
                } else {
                    k + 2
                }))),
            old(self).spec_round() == 1 && r is Ok ==> final(self).spec_has_round1_secret(),
            old(self).spec_round() == 2 && !old(self).spec_has_round1_secret() ==> (r matches Err(
                Error::Round2TooEarly,
            ) && *final(self) == *old(self)),
            old(self).spec_round() == 2 && old(self).spec_has_round1_secret() ==> ((r is Ok) || (
            r matches Err(Error::LocalError(_)))),
            old(self).spec_round() == 2 ==> (r matches Ok(msgs) ==> msgs@.len() == old(self).spec_round1_keys().len() && (forall|k: int|
                0 <= k < msgs@.len() ==> (#[trigger] msgs@[k]).round == 2 && msgs@[k].body
                    is Round2 && msgs@[k].sender == old(self).spec_self_id()
                    && msgs@[k].receiver as int == old(self).spec_round1_keys()[msgs@.len() - 1 - k] + 1)),
            old(self).spec_round() == 2 && r is Ok ==> final(self).spec_has_round2_secret()
                && !final(self).spec_has_round1_secret(),
            r is Ok ==> final(self).spec_round1_keys() == old(self).spec_round1_keys() && final(self).spec_round2_keys() == old(self).spec_round2_keys(),
    {
        if self.round_number == 1 {
            let (secret, package) = match dkg_part1(&self.id, self.max_signers, self.min_signers) {
                Ok(out) => out,
                Err(e) => {
                    return Err(e);
                },
            };
            self.round1_secret = Some(secret);
            let self_index = (self.party_number - 1) as usize;
            let mut messages: Vec<Self::Message> = Vec::new();
            let mut index: usize = 0;
            while index < self.identifiers.len()
                invariant
                    index <= self.identifiers@.len(),
                    self.identifiers@.len() <= u16::MAX,
                    self_index == self.party_number - 1,
                    self_index < self.identifiers@.len(),
                    self.round_number == 1,
                    messages@.len() == (if index <= self_index {
                        index as int
                    } else {
                        index - 1
                    }),
                    forall|k: int|
                        0 <= k < messages@.len() ==> (#[trigger] messages@[k]).round == 1
                            && messages@[k].body == DkgPackage::Round1(package)
                            && messages@[k].sender == self.id && messages@[k].receiver as int == (
                        if k + 1 < self_index + 1 {
                            k + 1
                        } else {
                            k + 2
                        }),
                decreases self.identifiers@.len() - index,
            {
                if index != self_index {
                    let message = RoundMessage {
                        round: 1u16,
                        sender: clone_identifier(&self.id),
                        receiver: (index + 1) as u16,
                        body: DkgPackage::Round1(clone_round1_package(&package)),
                    };
                    messages.push(message);
                }
                index += 1;
            }
            self.round_number = 2;
            Ok(messages)
        } else if self.round_number == 2 {
            let secret = match self.round1_secret.take() {
                Some(s) => s,
                None => {
                    return Err(Error::Round2TooEarly);
                },
            };
            let (secret2, mut packages) = match dkg_part2(
                secret,
                &self.received_round1,
                &self.identifiers,
            ) {
                Ok(out) => out,
                Err(e) => {
                    return Err(e);
                },
            };
            self.round2_secret = Some(secret2);
            let ghost ks = keys_of(self.received_round1@);
            let ghost n_packages = packages@.len();
            proof {
                assert(keys_of(packages@) == ks);
                assert(n_packages == ks.len());
                assert forall|k: int| 0 <= k < packages@.len() implies ((
                #[trigger] packages@[k]).0 as int) < self.identifiers@.len() by {
                    assert(keys_of(packages@)[k] == packages@[k].0);
                    assert(ks[k] == self.received_round1@[k].0);
                }
            }
            let mut messages: Vec<Self::Message> = Vec::new();
            while packages.len() > 0
                invariant
                    self.identifiers@.len() <= u16::MAX,
                    self.round_number == 2,
                    ks == keys_of(self.received_round1@),
                    ks.len() == n_packages,
                    messages@.len() + packages@.len() == n_packages,
                    keys_of(packages@) == ks.take(packages@.len() as int),
                    forall|k: int|
                        0 <= k < packages@.len() ==> ((#[trigger] packages@[k]).0 as int)
                            < self.identifiers@.len(),
                    forall|k: int|
                        0 <= k < messages@.len() ==> (#[trigger] messages@[k]).round == 2
                            && messages@[k].body is Round2 && messages@[k].sender == self.id
                            && messages@[k].receiver as int == ks[n_packages - 1 - k] + 1,
                decreases packages@.len(),
            {
                let ghost pre = packages@;
                let entry = match packages.pop() {
                    Some(e) => e,
                    None => {
                        proof {
                            assert(false);
                        }
                        return Err(Error::Round2TooEarly);
                    },
                };
                proof {
                    assert(keys_of(pre)[pre.len() - 1] == entry.0);
                    assert(entry.0 == ks[pre.len() - 1]);
                    assert(keys_of(packages@) =~= ks.take(packages@.len() as int)) by {
                        assert(packages@ =~= pre.drop_last());
                        assert forall|k: int|
                            0 <= k < packages@.len() implies keys_of(packages@)[k] == ks.take(
                            packages@.len() as int,
                        )[k] by {
                            assert(keys_of(pre)[k] == pre[k].0);
                            assert(keys_of(pre)[k] == ks.take(pre.len() as int)[k]);
                        }
                    }
                }
                let message = RoundMessage {
                    round: 2u16,
                    sender: clone_identifier(&self.id),
                    receiver: entry.0 + 1,
                    body: DkgPackage::Round2(entry.1),
                };
                messages.push(message);
            }
            proof {
                assert(keys_of(self.received_round1@) == ks);
                assert(self.id == old(self).id);
            }
            self.round_number = 3;
            Ok(messages)
        } else {
            Err(Error::InvalidRound(self.round_number as u16))
        }
    }

    fn handle_incoming(&mut self, message: Self::Message) -> (r: Result<(), Error>)
        ensures
            message.round == 1 && message.body is Round2 ==> (r matches Err(
                Error::RoundPayload(n),
            ) && n == 1 && *final(self) == *old(self)),
            message.round == 2 && message.body is Round1 ==> (r matches Err(
                Error::RoundPayload(n),
            ) && n == 2 && *final(self) == *old(self)),
            message.round != 1 && message.round != 2 ==> (r matches Err(Error::InvalidRound(n))
                && n == message.round && *final(self) == *old(self)),
            message.round == 1 ==> final(self).spec_round2_keys() == old(self).spec_round2_keys(),
            message.round == 2 ==> final(self).spec_round1_keys() == old(self).spec_round1_keys(),
            r is Ok && message.round == 1 ==> (forall|k: u16|
                old(self).spec_round1_keys().contains(k) ==> final(self).spec_round1_keys().contains(k)),
            r is Ok && message.round == 2 ==> (forall|k: u16|
                old(self).spec_round2_keys().contains(k) ==> final(self).spec_round2_keys().contains(k)),
            r is Err ==> *final(self) == *old(self),
            message.round == 1 && message.body is Round1 && old(self).spec_identifiers().contains(
                message.sender,
            ) ==> r is Ok,
            message.round == 2 && message.body is Round2 && old(self).spec_identifiers().contains(
                message.sender,
            ) ==> r is Ok,
            r matches Err(Error::SenderVerifier) ==> !old(self).spec_identifiers().contains(
                message.sender,
            ),
            message.round == 1 && message.body is Round1 && !old(
                self,
            ).spec_identifiers().contains(message.sender) ==> r matches Err(Error::SenderVerifier),
            message.round == 2 && message.body is Round2 && !old(
                self,
            ).spec_identifiers().contains(message.sender) ==> r matches Err(Error::SenderVerifier),
            r is Ok && message.round == 1 ==> records_key_of(
                old(self).spec_round1_keys(),
                final(self).spec_round1_keys(),
                old(self).spec_identifiers(),
                message.sender,
                old(self).spec_parties(),
            ),
            r is Ok && message.round == 2 ==> records_key_of(
                old(self).spec_round2_keys(),
                final(self).spec_round2_keys(),
                old(self).spec_identifiers(),
                message.sender,
                old(self).spec_parties(),
            ),
            final(self).spec_has_round1_secret() == old(self).spec_has_round1_secret(),
            final(self).spec_has_round2_secret() == old(self).spec_has_round2_secret(),
    {
        if message.round == 1 {
            match message.body {
                DkgPackage::Round1(package) => {
                    match identifier_index(&self.identifiers, &message.sender) {
                        Some(idx) => {
                            let ghost pre = self.received_round1@;
                            insert_keyed(&mut self.received_round1, idx as u16, package);
                            proof {
                                lemma_insert_keyed_bound(
                                    pre,
                                    self.received_round1@,
                                    idx as u16,
                                    self.identifiers@.len() as int,
                                );
                                assert(keys_after_insert(
                                    old(self).spec_round1_keys(),
                                    keys_of(self.received_round1@),
                                    idx as u16,
                                    old(self).spec_parties(),
                                ));
                                assert(records_key_of(
                                    old(self).spec_round1_keys(),
                                    keys_of(self.received_round1@),
                                    old(self).spec_identifiers(),
                                    message.sender,
                                    old(self).spec_parties(),
                                ));
                            }
                            Ok(())
                        },
                        None => Err(Error::SenderVerifier),
                    }
                },
                DkgPackage::Round2(_) => Err(Error::RoundPayload(1)),
            }
        } else if message.round == 2 {
            match message.body {
                DkgPackage::Round2(package) => {
                    match identifier_index(&self.identifiers, &message.sender) {
                        Some(idx) => {
                            let ghost pre = self.received_round2@;
                            insert_keyed(&mut self.received_round2, idx as u16, package);
                            proof {
                                lemma_insert_keyed_bound(
                                    pre,
                                    self.received_round2@,
                                    idx as u16,
                                    self.identifiers@.len() as int,
                                );
                                assert(keys_after_insert(
                                    old(self).spec_round2_keys(),
                                    keys_of(self.received_round2@),
                                    idx as u16,
                                    old(self).spec_parties(),
                                ));
                                assert(records_key_of(
                                    old(self).spec_round2_keys(),
                                    keys_of(self.received_round2@),
                                    old(self).spec_identifiers(),
                                    message.sender,
                                    old(self).spec_parties(),
                                ));
                            }
                            Ok(())
                        },
                        None => Err(Error::SenderVerifier),
                    }
                },
                DkgPackage::Round1(_) => Err(Error::RoundPayload(2)),
            }
        } else {
            Err(Error::InvalidRound(message.round))
        }
    }

    fn try_finalize_round(&mut self) -> (r: Result<Option<Self::Output>, Error>)
        ensures
            !(old(self).spec_round() == 3 && old(self).spec_round2_keys().len() == old(self).spec_parties() - 1) ==> (r matches Ok(out) && out is None && *final(self) == *old(self)),
            r matches Ok(Some(_)) ==> old(self).spec_round() == 3 && old(self).spec_round2_keys().len() == old(self).spec_parties() - 1,
            old(self).spec_round() == 3 && old(self).spec_round2_keys().len() == old(self).spec_parties() - 1 && !old(self).spec_has_round2_secret() ==> (r matches Err(
                Error::Round3TooEarly,
            ) && *final(self) == *old(self)),
            old(self).spec_round() == 3 && old(self).spec_round2_keys().len() == old(self).spec_parties() - 1 && old(self).spec_has_round2_secret() ==> ((r matches Ok(Some(_)))
                || (r matches Err(Error::LocalError(_)))),
    {
        if self.round_number == 3 && self.received_round2.len() == self.identifiers.len() - 1 {
            let secret = match self.round2_secret.take() {
                Some(s) => s,
                None => {
                    return Err(Error::Round3TooEarly);
                },
            };
            let share = match dkg_part3(
                &secret,
                &self.received_round1,
                &self.received_round2,
                &self.identifiers,
            ) {
                Ok(s) => s,
                Err(e) => {
                    return Err(e);
                },
            };
            Ok(Some(share))
        } else {
            Ok(None)
        }
    }
}

/// Relies on frost_ed25519::round1::commit and
/// KeyPackage::signing_share: fresh random signing nonces and their
/// public commitments for one signing run.
#[verifier::external_body]
fn frost_commit(key_package: &KeyPackage) -> (r: (SigningNonces, SigningCommitments)) {
    let (nonces, commitments) = frost_ed25519::round1::commit(
        key_package.inner.signing_share(),
        &mut rand::rngs::OsRng,
    );
    (SigningNonces { inner: nonces }, SigningCommitments { inner: commitments })
}

/// Relies on SigningCommitments' Clone: an equal copy of the
/// commitments, one for each recipient.
#[verifier::external_body]
fn clone_commitments(c: &SigningCommitments) -> (r: SigningCommitments)
    ensures
        r == *c,
{
    SigningCommitments { inner: c.inner.clone() }
}

/// Relies on SignatureShare's Clone: an equal copy of the share,
/// one for each recipient.
#[verifier::external_body]
fn clone_signature_share(s: &SignatureShare) -> (r: SignatureShare)
    ensures
        r == *s,
{
    SignatureShare { inner: s.inner.clone() }
}

/// Relies on frost_ed25519::SigningPackage::new: the message and the
/// collected commitments handed to every signer.
#[verifier::external_body]
fn signing_package_new(
    commitments: &Vec<(u16, SigningCommitments)>,
    identifiers: &Vec<Identifier>,
    message: &Vec<u8>,
) -> (r: SigningPackage)
    requires
        forall|k: int|
            0 <= k < commitments@.len() ==> ((#[trigger] commitments@[k]).0 as int)
                < identifiers@.len(),
{
    let map: std::collections::BTreeMap<_, _> = commitments
        .iter()
        .map(|e| (identifiers[e.0 as usize].inner, e.1.inner.clone()))
        .collect();
    SigningPackage { inner: frost_ed25519::SigningPackage::new(map, message) }
}

/// Relies on frost_ed25519::round2::sign: this participant's share of
/// the signature over the signing package. Errors are reported as
/// local protocol errors.
#[verifier::external_body]
fn frost_sign(
    package: &SigningPackage,
    nonces: &SigningNonces,
    key_package: &KeyPackage,
) -> (r: Result<SignatureShare, Error>)
    ensures
        r matches Err(e) ==> e is LocalError,
{
    match frost_ed25519::round2::sign(&package.inner, &nonces.inner, &key_package.inner) {
        Ok(share) => Ok(SignatureShare { inner: share }),
        Err(e) => Err(Error::LocalError(e.to_string())),
    }
}

/// Relies on frost_ed25519::aggregate: the aggregated group signature
/// from the collected signature shares.
#[verifier::external_body]
fn frost_aggregate(
    package: &SigningPackage,
    shares: &Vec<(u16, SignatureShare)>,
    identifiers: &Vec<Identifier>,
    public_key_package: &PublicKeyPackage,
) -> (r: Result<Signature, Error>)
    requires
        forall|k: int|
            0 <= k < shares@.len() ==> ((#[trigger] shares@[k]).0 as int) < identifiers@.len(),
    ensures
        r matches Err(e) ==> e is LocalError,
{
    let map: std::collections::BTreeMap<_, _> = shares
        .iter()
        .map(|e| (identifiers[e.0 as usize].inner, e.1.inner.clone()))
        .collect();
    match frost_ed25519::aggregate(&package.inner, &map, &public_key_package.inner) {
        Ok(signature) => Ok(Signature { inner: signature }),
        Err(e) => Err(Error::LocalError(e.to_string())),
    }
}

/// Relies on frost_ed25519's VerifyingKey::verify: whether the group
/// signature is valid for the message under the committee's group key.
#[verifier::external_body]
pub fn verify_signature(
    public_key_package: &PublicKeyPackage,
    message: &[u8],
    signature: &Signature,
) -> (r: bool) {
    public_key_package.inner.verifying_key().verify(message, &signature.inner).is_ok()
}

/// Relies on KeyPackage's Clone: an equal copy of a key package.
#[verifier::external_body]
pub fn clone_key_package(p: &KeyPackage) -> (r: KeyPackage)
    ensures
        r == *p,
{
    KeyPackage { inner: p.inner.clone() }
}

/// Relies on PublicKeyPackage's Clone: an equal copy of the group
/// public key material.
#[verifier::external_body]
pub fn clone_public_key_package(p: &PublicKeyPackage) -> (r: PublicKeyPackage)
    ensures
        r == *p,
{
    PublicKeyPackage { inner: p.inner.clone() }
}

/// Relies on PublicKeyPackage::verifying_key and its serialize: the
/// encoded bytes of the committee's group verifying key.
#[verifier::external_body]
pub fn group_verifying_key_bytes(p: &PublicKeyPackage) -> (r: Result<Vec<u8>, Error>) {
    p.inner.verifying_key().serialize().map_err(|e| Error::LocalError(e.to_string()))
}

/// Round message payloads of the signing protocol.
pub enum SignPackage {
    /// The signing commitments of the first round.
    Round1(SigningCommitments),
    /// A signature share of the second round.
    Round2(SignatureShare),
}

/// FROST signing driver.
///
/// Commitments and signature shares, this participant's included, are
/// kept by the sender's zero-based position in the identifier list.
/// Signing succeeds once the threshold number of signers has
/// contributed.
pub struct FrostDriver {
    session_id: SessionId,
    party_number: u16,
    signer: ed25519_dalek::SigningKey,
    verifiers: Vec<ed25519_dalek::VerifyingKey>,
    identifiers: Vec<Identifier>,
    id: Identifier,
    min_signers: u16,
    round_number: u8,
    key_share: KeyShare,
    message: Vec<u8>,
    nonces: Option<SigningNonces>,
    commitments: Vec<(u16, SigningCommitments)>,
    signing_package: Option<SigningPackage>,
    signature_shares: Vec<(u16, SignatureShare)>,
}

impl FrostDriver {
    /// The number of participants.
    pub closed spec fn spec_parties(&self) -> int {
        self.identifiers@.len() as int
    }

    /// This participant's one-based party number.
    pub closed spec fn spec_party_number(&self) -> u16 {
        self.party_number
    }

    /// The threshold number of signers.
    pub closed spec fn spec_min_signers(&self) -> u16 {
        self.min_signers
    }

    /// The keys under which commitments have been recorded.
    pub closed spec fn spec_commitment_keys(&self) -> Seq<u16> {
        keys_of(self.commitments@)
    }

    /// The keys under which signature shares have been recorded.
    pub closed spec fn spec_share_keys(&self) -> Seq<u16> {
        keys_of(self.signature_shares@)
    }

    /// The verifying keys of the signers, in session order.
    pub closed spec fn spec_verifiers(&self) -> Seq<ed25519_dalek::VerifyingKey> {
        self.verifiers@
    }

    /// Whether the signing nonces are still held.
    pub closed spec fn spec_has_nonces(&self) -> bool {
        self.nonces is Some
    }

    /// Whether the signing package is still held.
    pub closed spec fn spec_has_signing_package(&self) -> bool {
        self.signing_package is Some
    }

    /// This participant's own protocol identifier.
    pub closed spec fn spec_self_id(&self) -> Identifier {
        self.id
    }

    /// Create a signing driver. The party number must name a position
    /// in the identifier list.
    pub fn new(
        session_id: SessionId,
        party_number: u16,
        signer: ed25519_dalek::SigningKey,
        verifiers: Vec<ed25519_dalek::VerifyingKey>,
        identifiers: Vec<Identifier>,
        min_signers: u16,
        key_share: KeyShare,
        message: Vec<u8>,
    ) -> (r: Result<FrostDriver, Error>)
        requires
            identifiers@.len() <= u16::MAX,
        ensures
            party_number == 0 || party_number > identifiers@.len() ==> (r matches Err(
                Error::IndexIdentifier(i),
            ) && i == party_number as usize),
            1 <= party_number <= identifiers@.len() ==> (r matches Ok(d) && d.wf()
                && d.spec_round() == 1 && d.spec_party_number() == party_number
                && d.spec_parties() == identifiers@.len() && d.spec_min_signers() == min_signers
                && d.spec_commitment_keys().len() == 0 && d.spec_share_keys().len() == 0
                && d.spec_verifiers() == verifiers@
                && d.spec_self_id() == identifiers@[party_number - 1] && !d.spec_has_nonces()
                && !d.spec_has_signing_package()),
    {
        if party_number == 0 {
            return Err(Error::IndexIdentifier(party_number as usize));
        }
        let self_index = (party_number - 1) as usize;
        if self_index >= identifiers.len() {
            return Err(Error::IndexIdentifier(party_number as usize));
        }
        let id = clone_identifier(&identifiers[self_index]);
        Ok(
            FrostDriver {
                session_id,
                party_number,
                signer,
                verifiers,
                identifiers,
                id,
                min_signers,
                round_number: 1,
                key_share,
                message,
                nonces: None,
                commitments: Vec::new(),
                signing_package: None,
                signature_shares: Vec::new(),
            },
        )
    }
}

impl ProtocolDriver for FrostDriver {
    type Message = RoundMessage<SignPackage, ed25519_dalek::VerifyingKey>;

    type Output = Signature;

    closed spec fn wf(&self) -> bool {
        &&& 1 <= self.round_number <= 3
        &&& 1 <= self.party_number
        &&& self.party_number <= self.identifiers@.len()
        &&& self.identifiers@.len() <= u16::MAX
        &&& distinct_keys(self.commitments@)
        &&& distinct_keys(self.signature_shares@)
        &&& (forall|k: int|
            0 <= k < self.commitments@.len() ==> ((#[trigger] self.commitments@[k]).0 as int)
                < self.identifiers@.len())
        &&& (forall|k: int|
            0 <= k < self.signature_shares@.len() ==> ((#[trigger] self.signature_shares@[k]).0
                as int) < self.identifiers@.len())
    }

    closed spec fn spec_round(&self) -> u8 {
        self.round_number
    }

    closed spec fn spec_can_finalize(&self) -> bool {
        ||| self.round_number == 2 && keys_of(self.commitments@).len() == self.min_signers as int
        ||| self.round_number == 3 && keys_of(self.signature_shares@).len()
            == self.min_signers as int
    }

    fn round_info(&self) -> (r: Result<RoundInfo, Error>)
        ensures
            r matches Ok(info) && info == (RoundInfo {
                round_number: self.spec_round(),
                can_finalize: self.spec_can_finalize(),
                is_echo: false,
            }),
    {
        let can_finalize = if self.round_number == 2 {
            self.commitments.len() == self.min_signers as usize
        } else if self.round_number == 3 {
            self.signature_shares.len() == self.min_signers as usize
        } else {
            false
        };
        Ok(RoundInfo { round_number: self.round_number, can_finalize, is_echo: false })
    }

    fn proceed(&mut self) -> (r: Result<Vec<Self::Message>, Error>)
        ensures
            old(self).spec_round() != 1 && old(self).spec_round() != 2 ==> (r matches Err(
                Error::InvalidRound(n),
            ) && n == old(self).spec_round() && *final(self) == *old(self)),
            old(self).spec_round() == 1 ==> r is Ok,
            old(self).spec_round() == 2 && !old(self).spec_has_nonces() ==> (r matches Err(
                Error::Round3TooEarly,
            ) && *final(self) == *old(self)),
            old(self).spec_round() == 2 && old(self).spec_has_nonces() ==> ((r is Ok) || (
            r matches Err(Error::LocalError(_)))),
            old(self).spec_round() == 1 ==> (r matches Ok(msgs) ==> msgs@.len() == old(self).spec_parties() - 1 && (forall|k: int|
                0 <= k < msgs@.len() ==> (#[trigger] msgs@[k]).round == 1 && msgs@[k].body
                    is Round1 && msgs@[k].body == msgs@[0].body && msgs@[k].sender
                    == msgs@[0].sender && msgs@[k].receiver as int == (if k + 1 < old(self).spec_party_number() as int {
                    k + 1
                } else {
                    k + 2
                })) && final(self).spec_commitment_keys().contains(
                (old(self).spec_party_number() - 1) as u16,
            )),
            old(self).spec_round() == 1 && r is Ok ==> final(self).spec_has_nonces(),
            old(self).spec_round() == 2 ==> (r matches Ok(msgs) ==> msgs@.len() == old(self).spec_parties() - 1 && (forall|k: int|
                0 <= k < msgs@.len() ==> (#[trigger] msgs@[k]).round == 2 && msgs@[k].body
                    is Round2 && msgs@[k].body == msgs@[0].body && msgs@[k].sender
                    == msgs@[0].sender && msgs@[k].receiver as int == (if k + 1 < old(self).spec_party_number() as int {
                    k + 1
                } else {
                    k + 2
                })) && final(self).spec_share_keys().contains(
                (old(self).spec_party_number() - 1) as u16,
            )),
            old(self).spec_round() == 2 && r is Ok ==> final(self).spec_has_signing_package()
                && !final(self).spec_has_nonces(),
    {
        if self.round_number == 1 {
            let (nonces, commitments) = frost_commit(&self.key_share.key_package);
            let sender_key = verifying_key_of(&self.signer);
            let self_index = (self.party_number - 1) as usize;
            let mut messages: Vec<Self::Message> = Vec::new();
            let mut index: usize = 0;
            while index < self.identifiers.len()
                invariant
                    index <= self.identifiers@.len(),
                    self.identifiers@.len() <= u16::MAX,
                    self_index == self.party_number - 1,
                    self_index < self.identifiers@.len(),
                    messages@.len() == (if index <= self_index {
                        index as int
                    } else {
                        index - 1
                    }),
                    forall|k: int|
                        0 <= k < messages@.len() ==> (#[trigger] messages@[k]).round == 1
                            && messages@[k].body == SignPackage::Round1(commitments)
                            && messages@[k].sender == sender_key && messages@[k].receiver as int
                            == (if k + 1 < self_index + 1 {
                            k + 1
                        } else {
                            k + 2
                        }),
                decreases self.identifiers@.len() - index,
            {
                if index != self_index {
                    let message = RoundMessage {
                        round: 1u16,
                        sender: sender_key,
                        receiver: (index + 1) as u16,
                        body: SignPackage::Round1(clone_commitments(&commitments)),
                    };
                    messages.push(message);
                }
                index += 1;
            }
            self.nonces = Some(nonces);
            let ghost pre = self.commitments@;
            insert_keyed(&mut self.commitments, self.party_number - 1, commitments);
            proof {
                lemma_insert_keyed_bound(
                    pre,
                    self.commitments@,
                    (self.party_number - 1) as u16,
                    self.identifiers@.len() as int,
                );
            }
            self.round_number = 2;
            Ok(messages)
        } else if self.round_number == 2 {
            let nonces = match self.nonces.take() {
                Some(n) => n,
                None => {
                    return Err(Error::Round3TooEarly);
                },
            };
            let package = signing_package_new(&self.commitments, &self.identifiers, &self.message);
            let share = match frost_sign(&package, &nonces, &self.key_share.key_package) {
                Ok(s) => s,
                Err(e) => {
                    return Err(e);
                },
            };
            let sender_key = verifying_key_of(&self.signer);
            let self_index = (self.party_number - 1) as usize;
            let mut messages: Vec<Self::Message> = Vec::new();
            let mut index: usize = 0;
            while index < self.identifiers.len()
                invariant
                    index <= self.identifiers@.len(),
                    self.identifiers@.len() <= u16::MAX,
                    self_index == self.party_number - 1,
                    self_index < self.identifiers@.len(),
                    messages@.len() == (if index <= self_index {
                        index as int
                    } else {
                        index - 1
                    }),
                    forall|k: int|
                        0 <= k < messages@.len() ==> (#[trigger] messages@[k]).round == 2
                            && messages@[k].body == SignPackage::Round2(share)
                            && messages@[k].sender == sender_key && messages@[k].receiver as int
                            == (if k + 1 < self_index + 1 {
                            k + 1
                        } else {
                            k + 2
                        }),
                decreases self.identifiers@.len() - index,
            {
                if index != self_index {
                    let message = RoundMessage {
                        round: 2u16,
                        sender: sender_key,
                        receiver: (index + 1) as u16,
                        body: SignPackage::Round2(clone_signature_share(&share)),
                    };
                    messages.push(message);
                }
                index += 1;
            }
            self.signing_package = Some(package);
            let ghost pre = self.signature_shares@;
            insert_keyed(&mut self.signature_shares, self.party_number - 1, share);
            proof {
                lemma_insert_keyed_bound(
                    pre,
                    self.signature_shares@,
                    (self.party_number - 1) as u16,
                    self.identifiers@.len() as int,
                );
            }
            self.round_number = 3;
            Ok(messages)
        } else {
            Err(Error::InvalidRound(self.round_number as u16))
        }
    }

    fn handle_incoming(&mut self, message: Self::Message) -> (r: Result<(), Error>)
        ensures
            message.round == 1 && message.body is Round2 ==> (r matches Err(
                Error::RoundPayload(n),
            ) && n == 1 && *final(self) == *old(self)),
            message.round == 2 && message.body is Round1 ==> (r matches Err(
                Error::RoundPayload(n),
            ) && n == 2 && *final(self) == *old(self)),
            message.round != 1 && message.round != 2 ==> (r matches Err(Error::InvalidRound(n))
                && n == message.round && *final(self) == *old(self)),
            message.round == 1 ==> final(self).spec_share_keys() == old(self).spec_share_keys(),
            message.round == 2 ==> final(self).spec_commitment_keys() == old(self).spec_commitment_keys(),
            r is Ok && message.round == 1 ==> (forall|k: u16|
                old(self).spec_commitment_keys().contains(k) ==> final(self).spec_commitment_keys().contains(k)),
            r is Ok && message.round == 2 ==> (forall|k: u16|
                old(self).spec_share_keys().contains(k) ==> final(self).spec_share_keys().contains(k)),
            r is Err ==> *final(self) == *old(self),
            message.round == 1 && message.body is Round1 && old(self).spec_verifiers().contains(
                message.sender,
            ) && old(self).spec_verifiers().len() <= old(self).spec_parties() ==> r is Ok,
            message.round == 2 && message.body is Round2 && old(self).spec_verifiers().contains(
                message.sender,
            ) && old(self).spec_verifiers().len() <= old(self).spec_parties() ==> r is Ok,
            r matches Err(Error::SenderVerifier) ==> !old(self).spec_verifiers().contains(
                message.sender,
            ),
            message.round == 1 && message.body is Round1 && !old(self).spec_verifiers().contains(
                message.sender,
            ) ==> r matches Err(Error::SenderVerifier),
            message.round == 2 && message.body is Round2 && !old(self).spec_verifiers().contains(
                message.sender,
            ) ==> r matches Err(Error::SenderVerifier),
            r is Ok && message.round == 1 ==> records_key_of(
                old(self).spec_commitment_keys(),
                final(self).spec_commitment_keys(),
                old(self).spec_verifiers(),
                message.sender,
                old(self).spec_parties(),
            ),
            r is Ok && message.round == 2 ==> records_key_of(
                old(self).spec_share_keys(),
                final(self).spec_share_keys(),
                old(self).spec_verifiers(),
                message.sender,
                old(self).spec_parties(),
            ),
            final(self).spec_has_nonces() == old(self).spec_has_nonces(),
            final(self).spec_has_signing_package() == old(self).spec_has_signing_package(),
    {
        if message.round == 1 {
            match message.body {
                SignPackage::Round1(commitments) => {
                    match verifier_index(&self.verifiers, &message.sender) {
                        Some(idx) => {
                            if idx < self.identifiers.len() {
                                let ghost pre = self.commitments@;
                                insert_keyed(&mut self.commitments, idx as u16, commitments);
                                proof {
                                    lemma_insert_keyed_bound(
                                        pre,
                                        self.commitments@,
                                        idx as u16,
                                        self.identifiers@.len() as int,
                                    );
                                    assert(keys_after_insert(
                                        old(self).spec_commitment_keys(),
                                        keys_of(self.commitments@),
                                        idx as u16,
                                        old(self).spec_parties(),
                                    ));
                                    assert(records_key_of(
                                        old(self).spec_commitment_keys(),
                                        keys_of(self.commitments@),
                                        old(self).spec_verifiers(),
                                        message.sender,
                                        old(self).spec_parties(),
                                    ));
                                }
                                Ok(())
                            } else {
                                Err(Error::SenderIdentifier(1, idx))
                            }
                        },
                        None => Err(Error::SenderVerifier),
                    }
                },
                SignPackage::Round2(_) => Err(Error::RoundPayload(1)),
            }
        } else if message.round == 2 {
            match message.body {
                SignPackage::Round2(share) => {
                    match verifier_index(&self.verifiers, &message.sender) {
                        Some(idx) => {
                            if idx < self.identifiers.len() {
                                let ghost pre = self.signature_shares@;
                                insert_keyed(&mut self.signature_shares, idx as u16, share);
                                proof {
                                    lemma_insert_keyed_bound(
                                        pre,
                                        self.signature_shares@,
                                        idx as u16,
                                        self.identifiers@.len() as int,
                                    );
                                    assert(keys_after_insert(
                                        old(self).spec_share_keys(),
                                        keys_of(self.signature_shares@),
                                        idx as u16,
                                        old(self).spec_parties(),
                                    ));
                                    assert(records_key_of(
                                        old(self).spec_share_keys(),
                                        keys_of(self.signature_shares@),
                                        old(self).spec_verifiers(),
                                        message.sender,
                                        old(self).spec_parties(),
                                    ));
                                }
                                Ok(())
                            } else {
                                Err(Error::SenderIdentifier(2, idx))
                            }
                        },
                        None => Err(Error::SenderVerifier),
                    }
                },
                SignPackage::Round1(_) => Err(Error::RoundPayload(2)),
            }
        } else {
            Err(Error::InvalidRound(message.round))
        }
    }

    fn try_finalize_round(&mut self) -> (r: Result<Option<Self::Output>, Error>)
        ensures
            !(old(self).spec_round() == 3 && old(self).spec_share_keys().len() == old(self).spec_min_signers() as int) ==> (r matches Ok(out) && out is None && *final(self)
                == *old(self)),
            r matches Ok(Some(_)) ==> old(self).spec_round() == 3 && old(self).spec_share_keys().len() == old(self).spec_min_signers() as int,
            old(self).spec_round() == 3 && old(self).spec_share_keys().len() == old(self).spec_min_signers() as int && !old(self).spec_has_signing_package() ==> (r matches Err(
                Error::Round3TooEarly,
            ) && *final(self) == *old(self)),
            old(self).spec_round() == 3 && old(self).spec_share_keys().len() == old(self).spec_min_signers() as int && old(self).spec_has_signing_package() ==> ((r matches Ok(
                Some(_),
            )) || (r matches Err(Error::LocalError(_)))),
    {
        if self.round_number == 3 && self.signature_shares.len() == self.min_signers as usize {
            let package = match self.signing_package.take() {
                Some(p) => p,
                None => {
                    return Err(Error::Round3TooEarly);
                },
            };
            let signature = match frost_aggregate(
                &package,
                &self.signature_shares,
                &self.identifiers,
                &self.key_share.public_key_package,
            ) {
                Ok(s) => s,
                Err(e) => {
                    return Err(e);
                },
            };
            Ok(Some(signature))
        } else {
            Ok(None)
        }
    }
}

/// FROST signature driver: a bridge around the signing rounds.
pub struct SignatureDriver {
    /// The bridge feeding session traffic to the signing rounds.
    pub bridge: Bridge<FrostDriver>,
}

impl SignatureDriver {
    /// Create a new FROST signature driver for a participant of a
    /// session. The participant's own key must be in the session's
    /// participant list.
    pub fn new(
        session: &SessionState,
        session_id: SessionId,
        own_public_key: &[u8],
        signer: ed25519_dalek::SigningKey,
        verifiers: Vec<ed25519_dalek::VerifyingKey>,
        identifiers: Vec<Identifier>,
        min_signers: u16,
        key_share: KeyShare,
        message: Vec<u8>,
    ) -> (r: Result<SignatureDriver, Error>)
        requires
            session.participants_view().len() <= u16::MAX,
            identifiers@.len() <= u16::MAX,
        ensures
            session.participants_view().index_of_first(own_public_key@) is None ==> r matches Err(
                Error::NotSessionParticipant,
            ),
            r matches Ok(d) ==> d.bridge.driver.wf() && d.bridge.session_id == session_id,
    {
        let party_number = match session.party_number(own_public_key) {
            Some(n) => n,
            None => {
                return Err(Error::NotSessionParticipant);
            },
        };
        let driver = match FrostDriver::new(
            session_id,
            party_number,
            signer,
            verifiers,
            identifiers,
            min_signers,
            key_share,
            message,
        ) {
            Ok(d) => d,
            Err(e) => {
                return Err(e);
            },
        };
        Ok(SignatureDriver { bridge: Bridge { driver, session_id, party_number } })
    }
}

} // verus!
