//! Relay routing: what the server does with each inbound frame.
//!
//! Server handshake messages are consumed locally by the connection's
//! own channel. Peer handshake messages are relayed verbatim to the
//! target key, but only when both endpoints belong to one session.
//! Opaque server messages are decrypted and dispatched locally. Opaque
//! peer messages are routed to the target inside the named session;
//! the server cannot decrypt their inner ciphertext.
use vstd::prelude::*;

use crate::error::Error;
use crate::message::{HandshakeMessage, OpaqueMessage, RequestMessage, SealedEnvelope,
    TransparentMessage};
use crate::session::{SessionId, SessionManager};

verus! {

/// What the relay decided to do with one inbound frame.
pub enum RouteAction {
    /// Consume a server handshake message on the connection's own
    /// channel.
    ServerHandshake(HandshakeMessage),
    /// Relay a peer handshake message verbatim to the target key.
    RelayHandshake {
        /// Public key of the target.
        to: Vec<u8>,
        /// The handshake message to relay.
        message: HandshakeMessage,
    },
    /// Decrypt an opaque server message and dispatch it locally.
    OpaqueServer(SealedEnvelope),
    /// Route an opaque peer message, ciphertext untouched, to the
    /// target inside the session.
    RelayOpaque {
        /// Public key of the target.
        to: Vec<u8>,
        /// The session the message belongs to.
        session_id: SessionId,
        /// The sealed envelope to forward.
        envelope: SealedEnvelope,
    },
}

impl SessionManager {
    /// Whether some session holds both keys among its members.
    pub open spec fn spec_share_session(&self, a: Seq<u8>, b: Seq<u8>) -> bool {
        exists|i: int|
            0 <= i < self@.len() && (#[trigger] self@[i]).1.members().contains(a)
                && self@[i].1.members().contains(b)
    }

    /// Whether both keys belong to one common session.
    pub fn share_session(&self, a: &[u8], b: &[u8]) -> (r: bool)
        ensures
            r == self.spec_share_session(a@, b@),
    {
        let mut i: usize = 0;
        let n = self.session_count();
        while i < n
            invariant
                i <= n,
                n == self@.len(),
                forall|j: int|
                    0 <= j < i ==> !((#[trigger] self@[j]).1.members().contains(a@)
                        && self@[j].1.members().contains(b@)),
            decreases n - i,
        {
            let session = self.session_at(i);
            if session.is_member(a) && session.is_member(b) {
                proof {
                    assert(self@[i as int].1.members().contains(a@));
                    assert(self@[i as int].1.members().contains(b@));
                }
                return true;
            }
            i += 1;
        }
        false
    }

    /// Route one inbound frame from a connected client.
    ///
    /// The reserved default messages are rejected. A peer handshake is
    /// relayed only when sender and target share a session. An opaque
    /// peer message must name a session, and both endpoints must be
    /// members of it.
    pub fn route_request(&self, from: &[u8], message: RequestMessage) -> (r: Result<
        RouteAction,
        Error,
    >)
        ensures
            ({
                match message@ {
                    crate::codec::FrameView::Transparent(t) => match t {
                        crate::codec::TransparentView::Noop => r matches Err(
                            Error::EncodingKind(k),
                        ) && k == 0,
                        crate::codec::TransparentView::ServerHandshake(_) => r matches Ok(
                            RouteAction::ServerHandshake(_),
                        ),
                        crate::codec::TransparentView::PeerHandshake(pk, _) => {
                            if self.spec_share_session(from@, pk) {
                                r matches Ok(RouteAction::RelayHandshake { to, message: _ })
                                    && to@ == pk
                            } else {
                                r matches Err(Error::NotSessionParticipant)
                            }
                        },
                    },
                    crate::codec::FrameView::Opaque(o) => match o {
                        crate::codec::OpaqueView::Noop => r matches Err(Error::EncodingKind(k))
                            && k == 0,
                        crate::codec::OpaqueView::ServerMessage(_) => r matches Ok(
                            RouteAction::OpaqueServer(_),
                        ),
                        crate::codec::OpaqueView::PeerMessage(pk, sid, _) => match sid {
                            None => r matches Err(Error::SessionIdRequired),
                            Some(id) => {
                                if self.spec_route_allowed(id, from@, pk) {
                                    r matches Ok(
                                        RouteAction::RelayOpaque { to, session_id, envelope: _ },
                                    ) && to@ == pk && session_id.0 == id
                                } else {
                                    r matches Err(Error::NotSessionParticipant)
                                }
                            },
                        },
                    },
                    crate::codec::FrameView::Noop => r matches Err(Error::EncodingKind(k)) && k
                        == 0,
                }
            }),
    {
        match message {
            RequestMessage::Noop => Err(Error::EncodingKind(0)),
            RequestMessage::Transparent(t) => {
                match t {
                    TransparentMessage::Noop => Err(Error::EncodingKind(0)),
                    TransparentMessage::ServerHandshake(h) => Ok(RouteAction::ServerHandshake(h)),
                    TransparentMessage::PeerHandshake { public_key, message } => {
                        if self.share_session(from, public_key.as_slice()) {
                            Ok(RouteAction::RelayHandshake { to: public_key, message })
                        } else {
                            Err(Error::NotSessionParticipant)
                        }
                    },
                }
            },
            RequestMessage::Opaque(o) => {
                match o {
                    OpaqueMessage::Noop => Err(Error::EncodingKind(0)),
                    OpaqueMessage::ServerMessage(env) => Ok(RouteAction::OpaqueServer(env)),
                    OpaqueMessage::PeerMessage { public_key, session_id, envelope } => {
                        match session_id {
                            None => Err(Error::SessionIdRequired),
                            Some(id) => {
                                if self.route_allowed(&id, from, public_key.as_slice()) {
                                    Ok(
                                        RouteAction::RelayOpaque {
                                            to: public_key,
                                            session_id: id,
                                            envelope,
                                        },
                                    )
                                } else {
                                    Err(Error::NotSessionParticipant)
                                }
                            },
                        }
                    },
                }
            },
        }
    }

    /// Whether the named session exists and holds both keys among its
    /// members.
    pub open spec fn spec_route_allowed(&self, id: u128, a: Seq<u8>, b: Seq<u8>) -> bool {
        exists|i: int|
            0 <= i < self@.len() && (#[trigger] self@[i]).0 == SessionId(id)
                && self@[i].1.members().contains(a) && self@[i].1.members().contains(b)
    }

    /// Whether both keys are members of the named session.
    pub fn route_allowed(&self, id: &SessionId, a: &[u8], b: &[u8]) -> (r: bool)
        ensures
            r == self.spec_route_allowed(id.0, a@, b@),
    {
        let mut i: usize = 0;
        let n = self.session_count();
        while i < n
            invariant
                i <= n,
                n == self@.len(),
                forall|j: int|
                    0 <= j < i ==> !((#[trigger] self@[j]).0 == *id
                        && self@[j].1.members().contains(a@)
                        && self@[j].1.members().contains(b@)),
            decreases n - i,
        {
            if self.session_id_at(i) == *id {
                let session = self.session_at(i);
                if session.is_member(a) && session.is_member(b) {
                    proof {
                        assert(self@[i as int].0 == *id);
                        assert(self@[i as int].1.members().contains(a@));
                        assert(self@[i as int].1.members().contains(b@));
                    }
                    return true;
                }
            }
            i += 1;
        }
        false
    }
}

} // verus!
