//! The ICE relay. Outbound candidates are phase-gated: before negotiation
//! has begun they are premature and refused. Inbound candidates have no
//! phase gate beyond an existing engine session — they may legitimately
//! race ahead of or behind answer processing — and that gate is applied
//! where the dispatcher forwards them.

use vstd::prelude::*;

use crate::msg::{Action, ActionV, OutboundMessage, OutboundMessageV};
use crate::phase::{spec_is_at_least, Phase};
use crate::session::{ProtocolError, Session};

verus! {

/// The engine generated a local candidate: emit it to the peer if
/// negotiation is under way, else refuse it as premature. Read-only.
pub fn on_ice_candidate_generated(session: &Session, sdp_mline_index: u32, candidate: String) -> (r:
    Result<Action, ProtocolError>)
    ensures
        spec_is_at_least(session@.phase, Phase::PeerCallNegotiating) ==> (r matches Ok(a) && a@
            == ActionV::Send(OutboundMessageV::IceCandidate {
            sdp_mline_index,
            candidate: candidate@,
        })),
        !spec_is_at_least(session@.phase, Phase::PeerCallNegotiating) ==> r == Err::<
            Action,
            ProtocolError,
        >(ProtocolError::PrematureAction {
            required: Phase::PeerCallNegotiating,
            actual: session@.phase,
        }),
{
    match session.require_at_least(Phase::PeerCallNegotiating) {
        Ok(()) => Ok(Action::Send(OutboundMessage::IceCandidate { sdp_mline_index, candidate })),
        Err(e) => Err(e),
    }
}

/// A remote candidate arrived: forward it to the engine if an engine
/// session exists, else the forward is premature. `phase` only names the
/// session's phase in the error report.
pub fn forward_remote_candidate(
    engine_ready: bool,
    phase: Phase,
    sdp_mline_index: u32,
    candidate: String,
) -> (r: Result<Action, ProtocolError>)
    ensures
        engine_ready ==> (r matches Ok(a) && a@ == ActionV::AddIceCandidate {
            sdp_mline_index,
            candidate: candidate@,
        }),
        !engine_ready ==> r == Err::<Action, ProtocolError>(ProtocolError::PrematureAction {
            required: Phase::PeerConnected,
            actual: phase,
        }),
{
    if engine_ready {
        Ok(Action::AddIceCandidate { sdp_mline_index, candidate })
    } else {
        Err(ProtocolError::PrematureAction { required: Phase::PeerConnected, actual: phase })
    }
}

} // verus!
