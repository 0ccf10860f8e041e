//! Error taxonomy for the relay protocol and the MPC drivers.
use vstd::prelude::*;

verus! {

/// Errors raised by the codec, the Noise channels, the session layer
/// and the protocol drivers.
#[derive(Debug, Clone, PartialEq, Eq)]
pub enum Error {
    /// A buffer exceeds the maximum size permitted on the wire.
    MaxBufferSize(usize),
    /// The identity bytes of an encoded frame are invalid.
    BadEncodingIdentity,
    /// The version of an encoded frame is not supported: expected, then got.
    EncodingVersion(u16, u16),
    /// The kind identifier of an encoding is invalid.
    EncodingKind(u8),
    /// The noise pattern in a PEM document does not match the pattern
    /// in use by the protocol; holds the expected pattern.
    PatternMismatch(String),
    /// A PEM document does not have the expected shape for a keypair.
    BadKeypairPem,
    /// An operation that needs an established channel was attempted
    /// while the channel was still in the handshake state.
    NotTransportState,
    /// A signing key type string is not recognized.
    UnknownKeyType(String),
    /// An inbound message names a session other than the current one.
    SessionIdMismatch,
    /// An inbound message carries no session identifier.
    SessionIdRequired,
    /// No acknowledgement was received for the key-init phase.
    NoKeyInitAck,
    /// Verification of a generated signature failed.
    VerifySignature,
    /// The protocol is not finished; another round is available.
    NotFinished,
    /// A party number has no corresponding protocol identifier;
    /// holds the party index.
    IndexIdentifier(usize),
    /// The sender of a round message is not a known verifier.
    SenderVerifier,
    /// The sender index of a round message has no identifier;
    /// holds the round number, then the party index.
    SenderIdentifier(u16, usize),
    /// A round message carries a payload for a different round;
    /// holds the round number.
    RoundPayload(u16),
    /// A round number is not valid for the protocol.
    InvalidRound(u16),
    /// The second round was entered before the first completed.
    Round2TooEarly,
    /// The third round was entered before the second completed.
    Round3TooEarly,
    /// The local party is not a participant of the session.
    NotSessionParticipant,
    /// An error reported by input or output: a short or overlong
    /// frame, or a failed socket operation.
    Io(String),
    /// An error reported by the noise protocol library.
    Snow(String),
    /// An error reported decoding PEM data.
    Pem(String),
    /// An error reported by the MPC protocol library on the local node.
    LocalError(String),
    /// An error reported serializing or deserializing JSON.
    Json(String),
}

} // verus!
