//! Connection management: pooled connections by resource and credential tier.
//!
//! A connection of one tier is never lent under another. What connections do is
//! recorded by resource code, tier name and transport form, and by nothing else.

pub mod backoff;
pub mod laws;
pub mod lease;
pub mod opening;
pub mod pool;

use crate::domain::Stage;
use vstd::prelude::*;

verus! {

/// What happened to a connection.
#[derive(Clone, Copy, Debug, PartialEq, Eq, Structural)]
pub enum ConnPhase {
    /// A connection was opened.
    Establish,
    /// An idle connection was found dead and dropped.
    HealthEvict,
    /// A connection was destroyed because its session could not be cleaned.
    Recycle,
    /// A connection was cut off by a freeze or a revocation.
    Abort,
}

/// One record of a connection's life.
#[derive(Debug)]
pub struct ConnectionEvent {
    pub phase: ConnPhase,
    pub resource: String,
    pub tier: String,
    pub transport_kind: String,
}

/// What a connection record says.
pub struct ConnectionFacts {
    pub phase: ConnPhase,
    pub resource: Seq<char>,
    pub tier: Seq<char>,
    pub transport_kind: Seq<char>,
}

impl View for ConnectionEvent {
    type V = ConnectionFacts;

    open spec fn view(&self) -> ConnectionFacts {
        ConnectionFacts {
            phase: self.phase,
            resource: self.resource@,
            tier: self.tier@,
            transport_kind: self.transport_kind@,
        }
    }
}

impl Clone for ConnectionEvent {
    fn clone(&self) -> (copy: Self)
        ensures
            copy == self,
    {
        ConnectionEvent {
            phase: self.phase,
            resource: self.resource.clone(),
            tier: self.tier.clone(),
            transport_kind: self.transport_kind.clone(),
        }
    }
}

/// Why a connection could not be had.
#[derive(Clone, Copy, Debug, PartialEq, Eq, Structural)]
pub enum AcquireError {
    /// No credential for the resource and tier.
    Credential,
    /// The resource code resolves to no address.
    Resolve,
    /// The transport could not open the connection.
    Transport,
    /// No transport is registered.
    NoTransport,
    /// The limit is reached and the queue has no seat.
    CapacityExceeded,
    /// The key is in its backoff window.
    BackoffActive,
}

impl AcquireError {
    /// The stage that a refusal is charged to: connecting, for every failure.
    pub fn stage(&self) -> (stage: Stage)
        ensures
            stage == Stage::Transport,
    {
        match self {
            AcquireError::Credential => Stage::Transport,
            AcquireError::Resolve => Stage::Transport,
            AcquireError::Transport => Stage::Transport,
            AcquireError::NoTransport => Stage::Transport,
            AcquireError::CapacityExceeded => Stage::Transport,
            AcquireError::BackoffActive => Stage::Transport,
        }
    }
}

} // verus!
