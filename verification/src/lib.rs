//! Core of a relay framework for running multi-party threshold signing
//! protocols (CGGMP, FROST-Ed25519) over an untrusted server.
//!
//! Participants hold long-lived Noise keypairs, rendezvous in sessions
//! managed by the relay, establish pairwise end-to-end encrypted channels,
//! and drive round-based MPC state machines to a joint output.
use vstd::prelude::*;

pub mod cggmp;
pub mod codec;
pub mod compress;
pub mod driver;
pub mod error;
pub mod frost;
pub mod keypair;
pub mod message;
pub mod noise;
pub mod payload;
pub mod relay;
pub mod session;
pub mod util;

verus! {

/// Number of parties and signing threshold for an MPC committee.
#[derive(Clone, Copy, PartialEq, Eq, Structural, Debug)]
pub struct Parameters {
    /// Total number of parties in the committee.
    pub parties: u16,
    /// Number of parties required to sign.
    pub threshold: u16,
}

impl Parameters {
    /// A committee is well formed when at least one party is required
    /// to sign and the threshold does not exceed the committee size.
    pub open spec fn wf(self) -> bool {
        1 <= self.threshold <= self.parties
    }

    /// Create committee parameters, rejecting a threshold of zero or
    /// one larger than the committee.
    pub fn new(parties: u16, threshold: u16) -> (r: Option<Parameters>)
        ensures
            r is Some <==> 1 <= threshold <= parties,
            r matches Some(p) ==> p == (Parameters { parties, threshold }) && p.wf(),
    {
        if 1 <= threshold && threshold <= parties {
            Some(Parameters { parties, threshold })
        } else {
            None
        }
    }
}

} // verus!
