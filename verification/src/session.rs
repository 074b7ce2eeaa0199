//! The session: the single holder of the current phase and the session
//! metadata. Every phase change goes through [`Session::transition`], which
//! admits only monotonic advances, the jump to the current phase's error
//! variant, and the explicit close; terminal phases admit nothing further.

use vstd::prelude::*;

use crate::phase::{phase_rank, spec_error_phase, spec_is_at_least, Phase};

verus! {

/// An error of the negotiation protocol itself.
#[derive(Clone, Copy, Debug, PartialEq, Eq, Structural)]
pub enum ProtocolError {
    /// An event arrived, or a transition was requested, while the session
    /// was not in the phase it requires.
    IllegalTransition { from: Phase, to: Phase },
    /// An outbound action was attempted before the phase it requires.
    PrematureAction { required: Phase, actual: Phase },
}

/// A phase from which the session can never advance again: the error
/// phases and the closed phase.
pub open spec fn is_terminal_phase(p: Phase) -> bool {
    ||| p == Phase::GenericError
    ||| p == Phase::ServerConnectionError
    ||| p == Phase::ServerRegisteringError
    ||| p == Phase::PeerConnectionError
    ||| p == Phase::PeerCallError
    ||| p == Phase::ServerClosed
}

/// Which phase changes `transition` admits: from a terminal phase only
/// itself, the close, or its mapped error phase; from a live phase any
/// monotonic advance to a live phase, the jump to the phase's own error
/// variant, or the explicit close.
pub open spec fn spec_transition_allowed(from: Phase, to: Phase) -> bool {
    if is_terminal_phase(from) {
        to == from || to == Phase::ServerClosed || to == spec_error_phase(from)
    } else {
        ||| (!is_terminal_phase(to) && phase_rank(to) >= phase_rank(from))
        ||| to == spec_error_phase(from)
        ||| to == Phase::ServerClosed
    }
}

/// No admitted phase change regresses silently: it advances the rank, or
/// it is the jump to the current phase's error variant, or it is the
/// explicit close.
pub proof fn lemma_no_silent_regression(from: Phase, to: Phase)
    requires
        spec_transition_allowed(from, to),
    ensures
        phase_rank(to) >= phase_rank(from) || to == spec_error_phase(from) || to
            == Phase::ServerClosed,
{
}

/// The error phase an event maps to is always terminal: a session that
/// failed can never advance again.
pub proof fn lemma_error_phase_terminal(p: Phase)
    ensures
        is_terminal_phase(spec_error_phase(p)),
{
}

/// The mathematical content of a [`Session`].
pub ghost struct SessionView {
    pub phase: Phase,
    pub peer_id: Seq<char>,
    pub local_description_set: bool,
    pub remote_description_set: bool,
}

/// The signalling session: current phase, the peer this side wants to call,
/// and whether the two SDP descriptions have been handed to the media
/// engine. Mutated only through the validated operations below.
pub struct Session {
    phase: Phase,
    peer_id: String,
    local_description_set: bool,
    remote_description_set: bool,
}

impl View for Session {
    type V = SessionView;

    closed spec fn view(&self) -> SessionView {
        SessionView {
            phase: self.phase,
            peer_id: self.peer_id@,
            local_description_set: self.local_description_set,
            remote_description_set: self.remote_description_set,
        }
    }
}

impl Session {
    /// A fresh session, created when the signalling channel opens.
    pub fn new(peer_id: String) -> (s: Session)
        ensures
            s@ == (SessionView {
                phase: Phase::ServerConnecting,
                peer_id: peer_id@,
                local_description_set: false,
                remote_description_set: false,
            }),
    {
        Session {
            phase: Phase::ServerConnecting,
            peer_id,
            local_description_set: false,
            remote_description_set: false,
        }
    }

    /// Snapshot read of the current phase.
    pub fn current(&self) -> (p: Phase)
        ensures
            p == self@.phase,
    {
        self.phase
    }

    /// The id of the peer this session wants to call.
    pub fn peer_id(&self) -> (r: &String)
        ensures
            r@ == self@.peer_id,
    {
        &self.peer_id
    }

    /// Move to `target` if that is an admitted phase change, otherwise
    /// report `IllegalTransition` and change nothing.
    pub fn transition(&mut self, target: Phase) -> (r: Result<(), ProtocolError>)
        ensures
            spec_transition_allowed(old(self)@.phase, target) ==> {
                &&& r is Ok
                &&& final(self)@ == (SessionView { phase: target, ..old(self)@ })
            },
            !spec_transition_allowed(old(self)@.phase, target) ==> {
                &&& r == Err::<(), ProtocolError>(ProtocolError::IllegalTransition {
                    from: old(self)@.phase,
                    to: target,
                })
                &&& final(self)@ == old(self)@
            },
    {
        if Self::transition_allowed(self.phase, target) {
            self.phase = target;
            Ok(())
        } else {
            Err(ProtocolError::IllegalTransition { from: self.phase, to: target })
        }
    }

    /// Executable test of [`spec_transition_allowed`].
    pub fn transition_allowed(from: Phase, to: Phase) -> (r: bool)
        ensures
            r == spec_transition_allowed(from, to),
    {
        if Self::is_terminal(from) {
            to == from || matches!(to, Phase::ServerClosed) || to == from.error_phase()
        } else {
            (!Self::is_terminal(to) && to.rank() >= from.rank()) || to == from.error_phase()
                || matches!(to, Phase::ServerClosed)
        }
    }

    /// Executable test of [`is_terminal_phase`].
    pub fn is_terminal(p: Phase) -> (r: bool)
        ensures
            r == is_terminal_phase(p),
    {
        matches!(
            p,
            Phase::GenericError
            | Phase::ServerConnectionError
            | Phase::ServerRegisteringError
            | Phase::PeerConnectionError
            | Phase::PeerCallError
            | Phase::ServerClosed
        )
    }

    /// Read-only guard: the phase must have progressed at least to `min`,
    /// otherwise the attempted action is premature.
    pub fn require_at_least(&self, min: Phase) -> (r: Result<(), ProtocolError>)
        ensures
            spec_is_at_least(self@.phase, min) <==> r is Ok,
            !spec_is_at_least(self@.phase, min) ==> r == Err::<(), ProtocolError>(
                ProtocolError::PrematureAction { required: min, actual: self@.phase },
            ),
    {
        if self.phase.is_at_least(min) {
            Ok(())
        } else {
            Err(ProtocolError::PrematureAction { required: min, actual: self.phase })
        }
    }

    /// Record that the local SDP description has been handed to the engine.
    pub fn mark_local_description(&mut self)
        ensures
            final(self)@ == (SessionView { local_description_set: true, ..old(self)@ }),
    {
        self.local_description_set = true;
    }

    /// Record that the remote SDP description has been handed to the engine.
    pub fn mark_remote_description(&mut self)
        ensures
            final(self)@ == (SessionView { remote_description_set: true, ..old(self)@ }),
    {
        self.remote_description_set = true;
    }
}

} // verus!
