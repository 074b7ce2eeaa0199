//! The negotiation coordinator: reacts to the engine's negotiation-needed
//! notification, sequences offer creation, and applies the peer's answer.
//! Every step re-validates the session phase, so a stale engine callback
//! after a teardown can never act.

use vstd::prelude::*;

use crate::msg::{Action, ActionV, OutboundMessage, OutboundMessageV};
use crate::phase::{spec_error_phase, spec_is_at_least, Phase};
use crate::session::{spec_transition_allowed, ProtocolError, Session, SessionView};

verus! {

/// The engine asked to negotiate: move to `PeerCallNegotiating` and ask it
/// for an offer. A session that cannot make that move is moved to its
/// error phase instead; the error is fatal.
pub fn on_negotiation_needed(session: &mut Session) -> (r: Result<Vec<Action>, ProtocolError>)
    ensures
        spec_transition_allowed(old(session)@.phase, Phase::PeerCallNegotiating) ==> {
            &&& r matches Ok(acts) && acts@.len() == 1 && acts@[0] == Action::CreateOffer
            &&& final(session)@ == (SessionView {
                phase: Phase::PeerCallNegotiating,
                ..old(session)@
            })
        },
        !spec_transition_allowed(old(session)@.phase, Phase::PeerCallNegotiating) ==> {
            &&& r == Err::<Vec<Action>, ProtocolError>(ProtocolError::IllegalTransition {
                from: old(session)@.phase,
                to: Phase::PeerCallNegotiating,
            })
            &&& final(session)@ == (SessionView {
                phase: spec_error_phase(old(session)@.phase),
                ..old(session)@
            })
        },
{
    match session.transition(Phase::PeerCallNegotiating) {
        Ok(()) => {
            let mut acts: Vec<Action> = Vec::new();
            acts.push(Action::CreateOffer);
            Ok(acts)
        },
        Err(e) => {
            let cur = session.current();
            let moved = session.transition(cur.error_phase());
            assert(moved is Ok);
            Err(e)
        },
    }
}

/// Emit the SDP offer, guarded as an outbound action: negotiation must
/// already be under way, else the attempt is premature. Read-only.
pub fn send_offer(session: &Session, sdp: String) -> (r: Result<Action, ProtocolError>)
    ensures
        spec_is_at_least(session@.phase, Phase::PeerCallNegotiating) ==> (r matches Ok(a) && a@
            == ActionV::Send(OutboundMessageV::Offer { sdp: sdp@ })),
        !spec_is_at_least(session@.phase, Phase::PeerCallNegotiating) ==> r == Err::<
            Action,
            ProtocolError,
        >(ProtocolError::PrematureAction {
            required: Phase::PeerCallNegotiating,
            actual: session@.phase,
        }),
{
    match session.require_at_least(Phase::PeerCallNegotiating) {
        Ok(()) => Ok(Action::Send(OutboundMessage::Offer { sdp })),
        Err(e) => Err(e),
    }
}

/// The engine's offer is ready. Only a session still negotiating may act
/// on it — a stale callback after a teardown finds another phase, errors,
/// and leaves the torn-down session in its error phase. On success the
/// offer goes to the engine as the local description and out to the peer.
pub fn on_offer_created(session: &mut Session, sdp: String) -> (r: Result<Vec<Action>, ProtocolError>)
    ensures
        old(session)@.phase == Phase::PeerCallNegotiating ==> {
            &&& r matches Ok(acts) && acts@.len() == 2 && acts@[0]@ == ActionV::SetLocalDescription {
                sdp: sdp@,
            } && acts@[1]@ == ActionV::Send(OutboundMessageV::Offer { sdp: sdp@ })
            &&& final(session)@ == (SessionView { local_description_set: true, ..old(session)@ })
        },
        old(session)@.phase != Phase::PeerCallNegotiating ==> {
            &&& r == Err::<Vec<Action>, ProtocolError>(ProtocolError::IllegalTransition {
                from: old(session)@.phase,
                to: Phase::PeerCallNegotiating,
            })
            &&& final(session)@ == (SessionView {
                phase: spec_error_phase(old(session)@.phase),
                ..old(session)@
            })
        },
{
    let cur = session.current();
    if cur == Phase::PeerCallNegotiating {
        session.mark_local_description();
        let mut acts: Vec<Action> = Vec::new();
        acts.push(Action::SetLocalDescription { sdp: sdp.clone() });
        match send_offer(session, sdp) {
            Ok(a) => {
                acts.push(a);
                Ok(acts)
            },
            Err(_) => vstd::pervasive::unreached(),
        }
    } else {
        let moved = session.transition(cur.error_phase());
        assert(moved is Ok);
        Err(ProtocolError::IllegalTransition { from: cur, to: Phase::PeerCallNegotiating })
    }
}

/// A validated answer arrived: hand it to the engine as the remote
/// description and mark the call started. Any other phase is an illegal
/// transition, fatal as usual.
pub fn handle_answer(session: &mut Session, sdp: String) -> (r: Result<Vec<Action>, ProtocolError>)
    ensures
        old(session)@.phase == Phase::PeerCallNegotiating ==> {
            &&& r matches Ok(acts) && acts@.len() == 1 && acts@[0]@ == ActionV::SetRemoteDescription {
                sdp: sdp@,
            }
            &&& final(session)@ == (SessionView {
                phase: Phase::PeerCallStarted,
                remote_description_set: true,
                ..old(session)@
            })
        },
        old(session)@.phase != Phase::PeerCallNegotiating ==> {
            &&& r == Err::<Vec<Action>, ProtocolError>(ProtocolError::IllegalTransition {
                from: old(session)@.phase,
                to: Phase::PeerCallStarted,
            })
            &&& final(session)@ == (SessionView {
                phase: spec_error_phase(old(session)@.phase),
                ..old(session)@
            })
        },
{
    let cur = session.current();
    if cur == Phase::PeerCallNegotiating {
        session.mark_remote_description();
        let moved = session.transition(Phase::PeerCallStarted);
        assert(moved is Ok);
        let mut acts: Vec<Action> = Vec::new();
        acts.push(Action::SetRemoteDescription { sdp });
        Ok(acts)
    } else {
        let moved = session.transition(cur.error_phase());
        assert(moved is Ok);
        Err(ProtocolError::IllegalTransition { from: cur, to: Phase::PeerCallStarted })
    }
}

} // verus!
