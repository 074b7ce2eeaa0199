//! The lifecycle phase of a signalling session.
//!
//! Phases are grouped into bands (server connection, server registration,
//! peer connection, peer call) and carry a numeric rank so that "at least
//! this far along" is a plain comparison. The rank is given by a spec
//! function rather than by discriminant values, so reordering variants can
//! never silently change the ordering.

use vstd::prelude::*;

verus! {

/// One stage of the signalling/negotiation lifecycle.
#[derive(Clone, Copy, Debug, PartialEq, Eq, Structural)]
pub enum Phase {
    /// Generic error phase, outside every band.
    GenericError,
    ServerConnecting,
    ServerConnectionError,
    ServerConnected,
    ServerRegistering,
    ServerRegisteringError,
    ServerRegistered,
    ServerClosed,
    PeerConnecting,
    PeerConnectionError,
    PeerConnected,
    PeerCallNegotiating,
    PeerCallStarted,
    PeerCallStopping,
    PeerCallStopped,
    PeerCallError,
}

/// Numeric rank of a phase: progress through the lifecycle grows with the
/// rank, and each band of a thousand groups related phases.
pub open spec fn phase_rank(p: Phase) -> int {
    match p {
        Phase::GenericError => 1,
        Phase::ServerConnecting => 1000,
        Phase::ServerConnectionError => 1001,
        Phase::ServerConnected => 1002,
        Phase::ServerRegistering => 2000,
        Phase::ServerRegisteringError => 2001,
        Phase::ServerRegistered => 2002,
        Phase::ServerClosed => 2003,
        Phase::PeerConnecting => 3000,
        Phase::PeerConnectionError => 3001,
        Phase::PeerConnected => 3002,
        Phase::PeerCallNegotiating => 4000,
        Phase::PeerCallStarted => 4001,
        Phase::PeerCallStopping => 4002,
        Phase::PeerCallStopped => 4003,
        Phase::PeerCallError => 4004,
    }
}

/// Whether progress has reached `min`: rank comparison.
pub open spec fn spec_is_at_least(p: Phase, min: Phase) -> bool {
    phase_rank(p) >= phase_rank(min)
}

/// The error phase an error event maps a phase to. Phases with an operation
/// in progress map to their band's error variant; settled phases, where no
/// operation is pending that the error could be charged to, map to the
/// generic error phase; error phases map to themselves.
pub open spec fn spec_error_phase(p: Phase) -> Phase {
    match p {
        Phase::ServerConnecting => Phase::ServerConnectionError,
        Phase::ServerConnectionError => Phase::ServerConnectionError,
        Phase::ServerRegistering => Phase::ServerRegisteringError,
        Phase::ServerRegisteringError => Phase::ServerRegisteringError,
        Phase::PeerConnecting => Phase::PeerConnectionError,
        Phase::PeerConnectionError => Phase::PeerConnectionError,
        Phase::PeerConnected => Phase::PeerConnectionError,
        Phase::PeerCallNegotiating => Phase::PeerCallError,
        Phase::PeerCallError => Phase::PeerCallError,
        _ => Phase::GenericError,
    }
}

impl Phase {
    /// Executable rank, equal to the spec rank.
    pub fn rank(self) -> (r: u32)
        ensures
            r as int == phase_rank(self),
    {
        match self {
            Phase::GenericError => 1,
            Phase::ServerConnecting => 1000,
            Phase::ServerConnectionError => 1001,
            Phase::ServerConnected => 1002,
            Phase::ServerRegistering => 2000,
            Phase::ServerRegisteringError => 2001,
            Phase::ServerRegistered => 2002,
            Phase::ServerClosed => 2003,
            Phase::PeerConnecting => 3000,
            Phase::PeerConnectionError => 3001,
            Phase::PeerConnected => 3002,
            Phase::PeerCallNegotiating => 4000,
            Phase::PeerCallStarted => 4001,
            Phase::PeerCallStopping => 4002,
            Phase::PeerCallStopped => 4003,
            Phase::PeerCallError => 4004,
        }
    }

    /// Whether this phase has progressed at least as far as `min`.
    pub fn is_at_least(self, min: Phase) -> (r: bool)
        ensures
            r == spec_is_at_least(self, min),
    {
        self.rank() >= min.rank()
    }

    /// The phase an error event maps this phase to.
    pub fn error_phase(self) -> (r: Phase)
        ensures
            r == spec_error_phase(self),
    {
        match self {
            Phase::ServerConnecting => Phase::ServerConnectionError,
            Phase::ServerConnectionError => Phase::ServerConnectionError,
            Phase::ServerRegistering => Phase::ServerRegisteringError,
            Phase::ServerRegisteringError => Phase::ServerRegisteringError,
            Phase::PeerConnecting => Phase::PeerConnectionError,
            Phase::PeerConnectionError => Phase::PeerConnectionError,
            Phase::PeerConnected => Phase::PeerConnectionError,
            Phase::PeerCallNegotiating => Phase::PeerCallError,
            Phase::PeerCallError => Phase::PeerCallError,
            _ => Phase::GenericError,
        }
    }
}

} // verus!
