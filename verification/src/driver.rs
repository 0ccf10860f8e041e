//! The uniform round-driver contract and the bridge that feeds it.
//!
//! Every MPC protocol is adapted to the same four operations: report
//! the current round, advance a round while emitting outgoing
//! messages, record an incoming round message, and finalize a round
//! when all required inputs are present. The bridge applies inbound
//! session traffic to a driver and decides when to finalize, when to
//! proceed, and what to send.
use vstd::prelude::*;

use crate::error::Error;
use crate::session::SessionId;

verus! {

/// Information about the current round of a driver.
#[derive(Debug, Clone, Copy, PartialEq, Eq, Structural)]
pub struct RoundInfo {
    /// Current round number, starting from one.
    pub round_number: u8,
    /// Whether the round has all required inputs and can finalize.
    pub can_finalize: bool,
    /// Whether this round rebroadcasts received content.
    pub is_echo: bool,
}

/// A message exchanged during a protocol round.
///
/// Rounds are numbered from one; round zero is invalid. The receiver
/// is a one-based party number.
#[derive(Debug, Clone)]
pub struct RoundMessage<B, S> {
    /// Round number the body belongs to.
    pub round: u16,
    /// Identity of the sender in the protocol layer.
    pub sender: S,
    /// One-based party number of the receiver.
    pub receiver: u16,
    /// Protocol payload.
    pub body: B,
}

/// The uniform contract of a round-based MPC protocol driver.
pub trait ProtocolDriver: Sized {
    /// The round-message type of the protocol.
    type Message;

    /// The final output of the protocol.
    type Output;

    /// Structural well-formedness of the driver state.
    spec fn wf(&self) -> bool;

    /// The current round number.
    spec fn spec_round(&self) -> u8;

    /// Whether the current round has all required inputs.
    spec fn spec_can_finalize(&self) -> bool;

    /// Report the current round: its number, whether it can finalize,
    /// and whether it is an echo round.
    fn round_info(&self) -> (r: Result<RoundInfo, Error>)
        requires
            self.wf(),
        ensures
            r matches Ok(info) && info.round_number == self.spec_round() && info.can_finalize
                == self.spec_can_finalize(),
    ;

    /// Advance the local state by one round, emitting the messages to
    /// send to the other participants.
    fn proceed(&mut self) -> (r: Result<Vec<Self::Message>, Error>)
        requires
            old(self).wf(),
        ensures
            final(self).wf(),
            r is Ok ==> final(self).spec_round() == old(self).spec_round() + 1,
    ;

    /// Record a message received from a peer. A message for a round
    /// ahead of the current one is kept, not dropped, and counts once
    /// its round is reached.
    fn handle_incoming(&mut self, message: Self::Message) -> (r: Result<(), Error>)
        requires
            old(self).wf(),
        ensures
            final(self).wf(),
            final(self).spec_round() == old(self).spec_round(),
    ;

    /// When all required inputs are present, either return the final
    /// output or rotate to the next round's state.
    fn try_finalize_round(&mut self) -> (r: Result<Option<Self::Output>, Error>)
        requires
            old(self).wf(),
        ensures
            final(self).wf(),
            final(self).spec_round() >= old(self).spec_round(),
    ;
}

/// What the bridge decided after one inbound message.
pub enum BridgeStep<O, M> {
    /// The message was recorded; the round is not complete yet.
    Pending,
    /// The protocol finished with its output.
    Output(O),
    /// The round advanced; these messages must be dispatched to their
    /// receivers.
    Dispatch(Vec<M>),
}

/// Connects inbound session traffic with a protocol driver.
pub struct Bridge<D: ProtocolDriver> {
    /// The driver being fed.
    pub driver: D,
    /// The session this bridge belongs to.
    pub session_id: SessionId,
    /// Our own one-based party number in the session.
    pub party_number: u16,
}

impl<D: ProtocolDriver> Bridge<D> {
    /// Apply one inbound round message to the driver.
    ///
    /// A message without a session identifier, or for another session,
    /// is rejected. Otherwise the message is recorded; when it
    /// completes the round, the round is finalized, yielding either
    /// the protocol output or the next round's outgoing messages.
    pub fn handle_message(&mut self, msg_session_id: Option<SessionId>, message: D::Message) -> (r:
        Result<BridgeStep<D::Output, D::Message>, Error>)
        requires
            old(self).driver.wf(),
        ensures
            final(self).driver.wf(),
            final(self).session_id == old(self).session_id,
            final(self).party_number == old(self).party_number,
            msg_session_id is None ==> (r matches Err(Error::SessionIdRequired) && *final(self)
                == *old(self)),
            msg_session_id matches Some(id) && id != old(self).session_id ==> (r matches Err(
                Error::SessionIdMismatch,
            ) && *final(self) == *old(self)),
            r matches Ok(BridgeStep::Dispatch(_)) ==> final(self).driver.spec_round() > old(self).driver.spec_round(),
            msg_session_id == Some(old(self).session_id) && old(self).driver.spec_can_finalize()
                ==> (r matches Ok(BridgeStep::Pending) && *final(self) == *old(self)),
            r matches Ok(BridgeStep::Pending) ==> final(self).driver.spec_round() == old(self).driver.spec_round(),
            r matches Ok(BridgeStep::Pending) && !old(self).driver.spec_can_finalize() ==> !final(self).driver.spec_can_finalize(),
            r matches Ok(BridgeStep::Output(_)) ==> !old(self).driver.spec_can_finalize(),
            r matches Ok(BridgeStep::Dispatch(_)) ==> !old(self).driver.spec_can_finalize(),
    {
        match msg_session_id {
            None => {
                return Err(Error::SessionIdRequired);
            },
            Some(id) => {
                if id != self.session_id {
                    return Err(Error::SessionIdMismatch);
                }
            },
        }
        let info = match self.driver.round_info() {
            Ok(info) => info,
            Err(e) => {
                return Err(e);
            },
        };
        if info.can_finalize {
            return Ok(BridgeStep::Pending);
        }
        match self.driver.handle_incoming(message) {
            Ok(()) => {},
            Err(e) => {
                return Err(e);
            },
        }
        let info = match self.driver.round_info() {
            Ok(info) => info,
            Err(e) => {
                return Err(e);
            },
        };
        if !info.can_finalize {
            return Ok(BridgeStep::Pending);
        }
        match self.driver.try_finalize_round() {
            Ok(Some(output)) => Ok(BridgeStep::Output(output)),
            Ok(None) => {
                match self.driver.proceed() {
                    Ok(messages) => Ok(BridgeStep::Dispatch(messages)),
                    Err(e) => Err(e),
                }
            },
            Err(e) => Err(e),
        }
    }

    /// Start running the protocol: the initial advance that seeds the
    /// first round's traffic.
    pub fn execute(&mut self) -> (r: Result<Vec<D::Message>, Error>)
        requires
            old(self).driver.wf(),
        ensures
            final(self).driver.wf(),
            r is Ok ==> final(self).driver.spec_round() == old(self).driver.spec_round() + 1,
    {
        self.driver.proceed()
    }
}

} // verus!
