//! The message taxonomy of the relay protocol.
//!
//! A single tag byte discriminates each layer of the wire format:
//! the request/response envelope, the transparent handshake subtypes,
//! the opaque subtypes, the server-message kinds and the payload
//! encodings. The zero tag is reserved as a default value and is never
//! serialized on the wire.
use vstd::prelude::*;

use crate::session::{SessionId, SessionRequest, SessionState};

verus! {

/// Reserved default tag; never serialized.
pub const NOOP: u8 = 0;

/// Envelope tag of a transparent (plaintext) message.
pub const TRANSPARENT: u8 = 1;

/// Envelope tag of an opaque (encrypted) message.
pub const OPAQUE: u8 = 2;

/// Transparent subtype: a handshake message for the server channel.
pub const HANDSHAKE_SERVER: u8 = 1;

/// Transparent subtype: a relayed handshake message for a peer channel.
pub const HANDSHAKE_PEER: u8 = 2;

/// Handshake role tag of the initiating side.
pub const HANDSHAKE_INITIATOR: u8 = 1;

/// Handshake role tag of the responding side.
pub const HANDSHAKE_RESPONDER: u8 = 2;

/// Opaque subtype: a message on the server channel.
pub const OPAQUE_SERVER: u8 = 1;

/// Opaque subtype: a message relayed to a peer.
pub const OPAQUE_PEER: u8 = 2;

/// Server kind: an error reply.
pub const ERROR: u8 = 1;

/// Server kind: request a new session.
pub const SESSION_NEW: u8 = 2;

/// Server kind: reply to a new-session request.
pub const SESSION_CREATED: u8 = 3;

/// Server kind: a member announces it is ready.
pub const SESSION_READY_NOTIFY: u8 = 4;

/// Server kind: all members are ready.
pub const SESSION_READY: u8 = 5;

/// Server kind: a member registers a peer connection.
pub const SESSION_CONNECTION: u8 = 6;

/// Server kind: a member asks to be told when the session is active.
pub const SESSION_ACTIVE_NOTIFY: u8 = 7;

/// Server kind: all pairwise connections are established.
pub const SESSION_ACTIVE: u8 = 8;

/// Server kind: the owner closes the session.
pub const SESSION_CLOSE: u8 = 9;

/// Server kind: the session was removed.
pub const SESSION_FINISHED: u8 = 10;

/// Encoding tag of a binary payload.
pub const ENCODING_BLOB: u8 = 1;

/// Encoding tag of a JSON payload.
pub const ENCODING_JSON: u8 = 2;

/// Handshake messages.
#[derive(Debug)]
pub enum HandshakeMessage {
    /// Reserved default value.
    Noop,
    /// Handshake initiator: the meaningful length and the buffer.
    Initiator(usize, Vec<u8>),
    /// Handshake responder: the meaningful length and the buffer.
    Responder(usize, Vec<u8>),
}

impl HandshakeMessage {
    /// The tag byte of this handshake message.
    pub fn kind(&self) -> (r: u8)
        ensures
            *self is Noop ==> r == NOOP,
            *self is Initiator ==> r == HANDSHAKE_INITIATOR,
            *self is Responder ==> r == HANDSHAKE_RESPONDER,
    {
        match self {
            HandshakeMessage::Noop => NOOP,
            HandshakeMessage::Initiator(_, _) => HANDSHAKE_INITIATOR,
            HandshakeMessage::Responder(_, _) => HANDSHAKE_RESPONDER,
        }
    }
}

/// Transparent messages are not encrypted.
#[derive(Debug)]
pub enum TransparentMessage {
    /// Reserved default value.
    Noop,
    /// Handshake message for the server channel.
    ServerHandshake(HandshakeMessage),
    /// Relayed peer handshake message.
    PeerHandshake {
        /// Public key of the receiver.
        public_key: Vec<u8>,
        /// Handshake message.
        message: HandshakeMessage,
    },
}

impl TransparentMessage {
    /// The tag byte of this transparent message.
    pub fn kind(&self) -> (r: u8)
        ensures
            *self is Noop ==> r == NOOP,
            *self is ServerHandshake ==> r == HANDSHAKE_SERVER,
            *self is PeerHandshake ==> r == HANDSHAKE_PEER,
    {
        match self {
            TransparentMessage::Noop => NOOP,
            TransparentMessage::ServerHandshake(_) => HANDSHAKE_SERVER,
            TransparentMessage::PeerHandshake { .. } => HANDSHAKE_PEER,
        }
    }
}

/// Encoding for message payloads.
#[derive(Debug, Clone, Copy, PartialEq, Eq, Structural)]
pub enum Encoding {
    /// Reserved default value.
    Noop,
    /// Binary encoding.
    Blob,
    /// JSON encoding.
    Json,
}

impl Encoding {
    /// The tag byte of this encoding.
    pub fn kind(&self) -> (r: u8)
        ensures
            *self is Noop ==> r == NOOP,
            *self is Blob ==> r == ENCODING_BLOB,
            *self is Json ==> r == ENCODING_JSON,
    {
        match self {
            Encoding::Noop => NOOP,
            Encoding::Blob => ENCODING_BLOB,
            Encoding::Json => ENCODING_JSON,
        }
    }
}

/// Sealed envelope is an encrypted message.
///
/// The payload has been encrypted using the noise protocol channel and
/// the recipient must decrypt and decode the payload.
#[derive(Debug)]
pub struct SealedEnvelope {
    /// Encoding for the payload.
    pub encoding: Encoding,
    /// Length of the payload data.
    pub length: usize,
    /// Encrypted payload.
    pub payload: Vec<u8>,
    /// Whether this is a broadcast message.
    pub broadcast: bool,
}

/// Opaque messages are encrypted.
#[derive(Debug)]
pub enum OpaqueMessage {
    /// Reserved default value.
    Noop,
    /// Encrypted message between the server and a client. After
    /// decrypting, it can be decoded to a server message.
    ServerMessage(SealedEnvelope),
    /// Relay an encrypted message to a peer.
    PeerMessage {
        /// Public key of the receiver.
        public_key: Vec<u8>,
        /// Session identifier.
        session_id: Option<SessionId>,
        /// Message envelope.
        envelope: SealedEnvelope,
    },
}

impl OpaqueMessage {
    /// The tag byte of this opaque message.
    pub fn kind(&self) -> (r: u8)
        ensures
            *self is Noop ==> r == NOOP,
            *self is ServerMessage ==> r == OPAQUE_SERVER,
            *self is PeerMessage ==> r == OPAQUE_PEER,
    {
        match self {
            OpaqueMessage::Noop => NOOP,
            OpaqueMessage::ServerMessage(_) => OPAQUE_SERVER,
            OpaqueMessage::PeerMessage { .. } => OPAQUE_PEER,
        }
    }
}

/// Request message sent to the server or another peer.
#[derive(Debug)]
pub enum RequestMessage {
    /// Reserved default value.
    Noop,
    /// Transparent message used for the handshakes.
    Transparent(TransparentMessage),
    /// Opaque encrypted message.
    Opaque(OpaqueMessage),
}

impl RequestMessage {
    /// The tag byte of this request.
    pub fn kind(&self) -> (r: u8)
        ensures
            *self is Noop ==> r == NOOP,
            *self is Transparent ==> r == TRANSPARENT,
            *self is Opaque ==> r == OPAQUE,
    {
        match self {
            RequestMessage::Noop => NOOP,
            RequestMessage::Transparent(_) => TRANSPARENT,
            RequestMessage::Opaque(_) => OPAQUE,
        }
    }
}

/// Response message sent by the server or a peer.
#[derive(Debug)]
pub enum ResponseMessage {
    /// Reserved default value.
    Noop,
    /// Transparent message used for the handshakes.
    Transparent(TransparentMessage),
    /// Opaque encrypted message.
    Opaque(OpaqueMessage),
}

impl ResponseMessage {
    /// The tag byte of this response.
    pub fn kind(&self) -> (r: u8)
        ensures
            *self is Noop ==> r == NOOP,
            *self is Transparent ==> r == TRANSPARENT,
            *self is Opaque ==> r == OPAQUE,
    {
        match self {
            ResponseMessage::Noop => NOOP,
            ResponseMessage::Transparent(_) => TRANSPARENT,
            ResponseMessage::Opaque(_) => OPAQUE,
        }
    }
}

/// Message sent between the server and a client.
#[derive(Debug)]
pub enum ServerMessage {
    /// Reserved default value.
    Noop,
    /// Return an error message to the client: a status code with
    /// HTTP semantics, and a text.
    Error(u16, String),
    /// Request a new session.
    NewSession(SessionRequest),
    /// Request to notify all participants when the session is ready.
    SessionReadyNotify(SessionId),
    /// Register a peer connection in a session.
    SessionConnection {
        /// Session identifier.
        session_id: SessionId,
        /// Public key of the peer.
        peer_key: Vec<u8>,
    },
    /// Request to notify all participants when the session is active.
    SessionActiveNotify(SessionId),
    /// Response to a new session request.
    SessionCreated(SessionState),
    /// Notification dispatched to all participants in a session when
    /// they have all completed the server handshake.
    SessionReady(SessionState),
    /// Notification dispatched to all participants in a session when
    /// they have all established peer connections to each other.
    SessionActive(SessionState),
    /// Request from the owner to close a session.
    CloseSession(SessionId),
    /// Notification that a session was removed.
    SessionFinished(SessionId),
}

impl ServerMessage {
    /// The tag byte of this server message.
    pub fn kind(&self) -> (r: u8)
        ensures
            *self is Noop ==> r == NOOP,
            *self is Error ==> r == ERROR,
            *self is NewSession ==> r == SESSION_NEW,
            *self is SessionReadyNotify ==> r == SESSION_READY_NOTIFY,
            *self is SessionConnection ==> r == SESSION_CONNECTION,
            *self is SessionActiveNotify ==> r == SESSION_ACTIVE_NOTIFY,
            *self is SessionCreated ==> r == SESSION_CREATED,
            *self is SessionReady ==> r == SESSION_READY,
            *self is SessionActive ==> r == SESSION_ACTIVE,
            *self is CloseSession ==> r == SESSION_CLOSE,
            *self is SessionFinished ==> r == SESSION_FINISHED,
    {
        match self {
            ServerMessage::Noop => NOOP,
            ServerMessage::Error(_, _) => ERROR,
            ServerMessage::NewSession(_) => SESSION_NEW,
            ServerMessage::SessionReadyNotify(_) => SESSION_READY_NOTIFY,
            ServerMessage::SessionConnection { .. } => SESSION_CONNECTION,
            ServerMessage::SessionActiveNotify(_) => SESSION_ACTIVE_NOTIFY,
            ServerMessage::SessionCreated(_) => SESSION_CREATED,
            ServerMessage::SessionReady(_) => SESSION_READY,
            ServerMessage::SessionActive(_) => SESSION_ACTIVE,
            ServerMessage::CloseSession(_) => SESSION_CLOSE,
            ServerMessage::SessionFinished(_) => SESSION_FINISHED,
        }
    }
}

} // verus!
