//! Noise channels: the two-state encrypted channel machine.
//!
//! A channel starts in the handshake state. The handshake completes in
//! exactly two messages, after which both sides move irreversibly into
//! the transport state. Writes append the authentication tag; reads
//! strip it. Operations that need an established channel fail with
//! the not-in-transport-state error before completion.
use vstd::prelude::*;

use crate::error::Error;
use crate::keypair::Keypair;
use crate::message::{Encoding, SealedEnvelope};

verus! {

/// Length in bytes of the authentication tag appended to every
/// transport-mode ciphertext.
pub const TAGLEN: usize = 16;

/// A Noise handshake state.
#[verifier::external_type_specification]
#[verifier::external_body]
pub struct ExHandshakeState(snow::HandshakeState);

/// A Noise transport state.
#[verifier::external_type_specification]
#[verifier::external_body]
pub struct ExTransportState(snow::TransportState);

/// Relies on snow's Builder: an initiator handshake state for the
/// protocol's fixed pattern, under a local private key and the
/// remote's public key. The builder copies both keys into fixed
/// buffers and panics on longer input, so the Curve25519 key length
/// is required.
#[verifier::external_body]
fn build_initiator(local_private: &[u8], remote_public: &[u8]) -> (r: Result<
    snow::HandshakeState,
    Error,
>)
    requires
        local_private@.len() == 32,
        remote_public@.len() == 32,
{
    let params = match "Noise_KK_25519_ChaChaPoly_BLAKE2s".parse() {
        Ok(p) => p,
        Err(e) => return Err(Error::Snow(format!("{}", e))),
    };
    snow::Builder::new(params)
        .local_private_key(local_private)
        .remote_public_key(remote_public)
        .build_initiator()
        .map_err(|e| Error::Snow(e.to_string()))
}

/// Relies on snow's Builder: a responder handshake state for the
/// protocol's fixed pattern, with the same key-length bound as the
/// initiator side.
#[verifier::external_body]
fn build_responder(local_private: &[u8], remote_public: &[u8]) -> (r: Result<
    snow::HandshakeState,
    Error,
>)
    requires
        local_private@.len() == 32,
        remote_public@.len() == 32,
{
    let params = match "Noise_KK_25519_ChaChaPoly_BLAKE2s".parse() {
        Ok(p) => p,
        Err(e) => return Err(Error::Snow(format!("{}", e))),
    };
    snow::Builder::new(params)
        .local_private_key(local_private)
        .remote_public_key(remote_public)
        .build_responder()
        .map_err(|e| Error::Snow(e.to_string()))
}

/// Relies on snow's HandshakeState::write_message: the next handshake
/// message, with an empty payload.
#[verifier::external_body]
fn handshake_write(state: &mut snow::HandshakeState) -> (r: Result<Vec<u8>, Error>) {
    let mut buf = vec![0u8; 1024];
    match state.write_message(&[], &mut buf) {
        Ok(n) => {
            buf.truncate(n);
            Ok(buf)
        },
        Err(e) => Err(Error::Snow(e.to_string())),
    }
}

/// Relies on snow's HandshakeState::read_message: consume one inbound
/// handshake message.
#[verifier::external_body]
fn handshake_read(state: &mut snow::HandshakeState, message: &[u8]) -> (r: Result<Vec<u8>, Error>) {
    let mut buf = vec![0u8; 1024];
    match state.read_message(message, &mut buf) {
        Ok(n) => {
            buf.truncate(n);
            Ok(buf)
        },
        Err(e) => Err(Error::Snow(e.to_string())),
    }
}

/// Relies on snow's HandshakeState::is_handshake_finished.
#[verifier::external_body]
fn handshake_finished(state: &snow::HandshakeState) -> (r: bool) {
    state.is_handshake_finished()
}

/// Relies on snow's HandshakeState::into_transport_mode: the
/// irreversible transition of a completed handshake into transport
/// mode.
#[verifier::external_body]
fn handshake_into_transport(state: snow::HandshakeState) -> (r: Result<
    snow::TransportState,
    Error,
>) {
    state.into_transport_mode().map_err(|e| Error::Snow(e.to_string()))
}

/// Relies on snow's TransportState::write_message: the ciphertext of a
/// payload, which is the payload with the authentication tag appended.
#[verifier::external_body]
fn transport_write(state: &mut snow::TransportState, payload: &[u8]) -> (r: Result<
    Vec<u8>,
    Error,
>)
    ensures
        r matches Ok(c) ==> c@.len() == payload@.len() + TAGLEN,
{
    let mut buf = vec![0u8; payload.len() + TAGLEN];
    match state.write_message(payload, &mut buf) {
        Ok(n) if n == payload.len() + TAGLEN => {
            buf.truncate(n);
            Ok(buf)
        },
        Ok(n) => Err(Error::Snow(format!("unexpected ciphertext length {}", n))),
        Err(e) => Err(Error::Snow(e.to_string())),
    }
}

/// Relies on snow's TransportState::read_message: the plaintext of a
/// ciphertext, which is the ciphertext with the authentication tag
/// stripped.
#[verifier::external_body]
fn transport_read(state: &mut snow::TransportState, message: &[u8]) -> (r: Result<Vec<u8>, Error>)
    ensures
        r matches Ok(p) ==> p@.len() + TAGLEN == message@.len(),
{
    if message.len() < TAGLEN {
        return Err(Error::Snow("ciphertext shorter than the tag".to_string()));
    }
    let mut buf = vec![0u8; message.len()];
    match state.read_message(message, &mut buf) {
        Ok(n) if n + TAGLEN == message.len() => {
            buf.truncate(n);
            Ok(buf)
        },
        Ok(n) => Err(Error::Snow(format!("unexpected plaintext length {}", n))),
        Err(e) => Err(Error::Snow(e.to_string())),
    }
}

/// Enumeration of protocol states.
pub enum ProtocolState {
    /// Noise handshake state.
    Handshake(Box<snow::HandshakeState>),
    /// Noise transport state.
    Transport(snow::TransportState),
}

impl ProtocolState {
    /// Whether the channel has completed its handshake.
    pub fn is_transport(&self) -> (r: bool)
        ensures
            r == (self is Transport),
    {
        match self {
            ProtocolState::Transport(_) => true,
            ProtocolState::Handshake(_) => false,
        }
    }

    /// Open an initiator channel toward a remote static key. The new
    /// channel is in the handshake state. The keys must have the
    /// Curve25519 length the protocol's pattern fixes.
    pub fn new_initiator(keypair: &Keypair, remote_public: &[u8]) -> (r: Result<
        ProtocolState,
        Error,
    >)
        requires
            keypair.spec_private().len() == 32,
            remote_public@.len() == 32,
        ensures
            r matches Ok(s) ==> s is Handshake,
    {
        match build_initiator(keypair.private_key(), remote_public) {
            Ok(state) => Ok(ProtocolState::Handshake(Box::new(state))),
            Err(e) => Err(e),
        }
    }

    /// Open a responder channel toward a remote static key. The new
    /// channel is in the handshake state. The keys must have the
    /// Curve25519 length the protocol's pattern fixes.
    pub fn new_responder(keypair: &Keypair, remote_public: &[u8]) -> (r: Result<
        ProtocolState,
        Error,
    >)
        requires
            keypair.spec_private().len() == 32,
            remote_public@.len() == 32,
        ensures
            r matches Ok(s) ==> s is Handshake,
    {
        match build_responder(keypair.private_key(), remote_public) {
            Ok(state) => Ok(ProtocolState::Handshake(Box::new(state))),
            Err(e) => Err(e),
        }
    }

    /// Produce the next outbound handshake message. A channel already
    /// in transport mode has no handshake messages left.
    pub fn write_handshake_message(&mut self) -> (r: Result<Vec<u8>, Error>)
        ensures
            (*old(self)) is Transport ==> r is Err && *final(self) == *old(self),
            (*final(self)) is Transport == ((*old(self)) is Transport),
    {
        match self {
            ProtocolState::Handshake(state) => handshake_write(state),
            ProtocolState::Transport(_) => Err(
                Error::Snow("handshake already complete".to_owned()),
            ),
        }
    }

    /// Consume one inbound handshake message. A channel already in
    /// transport mode has no handshake messages left.
    pub fn read_handshake_message(&mut self, message: &[u8]) -> (r: Result<Vec<u8>, Error>)
        ensures
            (*old(self)) is Transport ==> r is Err && *final(self) == *old(self),
            (*final(self)) is Transport == ((*old(self)) is Transport),
    {
        match self {
            ProtocolState::Handshake(state) => handshake_read(state, message),
            ProtocolState::Transport(_) => Err(
                Error::Snow("handshake already complete".to_owned()),
            ),
        }
    }

    /// Whether the handshake has exchanged all its messages. A channel
    /// in transport mode is finished.
    pub fn is_handshake_finished(&self) -> (r: bool)
        ensures
            self is Transport ==> r,
    {
        match self {
            ProtocolState::Handshake(state) => handshake_finished(state),
            ProtocolState::Transport(_) => true,
        }
    }

    /// Transition a completed handshake into transport mode. The
    /// transition is irreversible; a channel already in transport mode
    /// stays as it is.
    pub fn into_transport_mode(self) -> (r: Result<ProtocolState, Error>)
        ensures
            r matches Ok(s) ==> s is Transport,
    {
        match self {
            ProtocolState::Handshake(state) => {
                match handshake_into_transport(*state) {
                    Ok(t) => Ok(ProtocolState::Transport(t)),
                    Err(e) => Err(e),
                }
            },
            ProtocolState::Transport(t) => Ok(ProtocolState::Transport(t)),
        }
    }

    /// Encrypt a plaintext into a sealed envelope on an established
    /// channel. Before the handshake completes, encryption fails with
    /// the not-in-transport-state error.
    pub fn encrypt_envelope(
        &mut self,
        plaintext: &[u8],
        encoding: Encoding,
        broadcast: bool,
    ) -> (r: Result<SealedEnvelope, Error>)
        ensures
            (*old(self)) is Handshake ==> (r matches Err(Error::NotTransportState) && *final(self)
                == *old(self)),
            (*final(self)) is Transport == ((*old(self)) is Transport),
            r matches Ok(env) ==> env.encoding == encoding && env.broadcast == broadcast
                && env.payload@.len() == plaintext@.len() + TAGLEN && env.length
                == env.payload@.len(),
    {
        match self {
            ProtocolState::Transport(state) => {
                match transport_write(state, plaintext) {
                    Ok(ciphertext) => {
                        let length = ciphertext.len();
                        Ok(SealedEnvelope { encoding, length, payload: ciphertext, broadcast })
                    },
                    Err(e) => Err(e),
                }
            },
            ProtocolState::Handshake(_) => Err(Error::NotTransportState),
        }
    }

    /// Decrypt a sealed envelope on an established channel. Before the
    /// handshake completes, decryption fails with the
    /// not-in-transport-state error.
    pub fn decrypt_envelope(&mut self, envelope: &SealedEnvelope) -> (r: Result<Vec<u8>, Error>)
        ensures
            (*old(self)) is Handshake ==> (r matches Err(Error::NotTransportState) && *final(self)
                == *old(self)),
            (*final(self)) is Transport == ((*old(self)) is Transport),
            r matches Ok(p) ==> p@.len() + TAGLEN == envelope.payload@.len(),
    {
        match self {
            ProtocolState::Transport(state) => transport_read(state, envelope.payload.as_slice()),
            ProtocolState::Handshake(_) => Err(Error::NotTransportState),
        }
    }
}

} // verus!
