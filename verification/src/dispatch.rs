//! The signalling dispatcher: owns the session, decodes inbound payloads,
//! validates each event against the current phase, and answers with the
//! actions the embedder must perform. One dispatcher drives one signalling
//! connection; wire messages and engine notifications all pass through it,
//! so phase transitions never run concurrently with themselves.

use vstd::prelude::*;

use crate::codec;
use crate::ice;
use crate::msg::{
    actions_view, Action, ActionV, CodecError, OutboundMessage, OutboundMessageV, SdpKind,
    SignalMessage, SignalMessageV,
};
use crate::negotiate;
use crate::phase::{spec_error_phase, Phase};
use crate::session::{ProtocolError, Session, SessionView};

verus! {

/// Why handling an inbound payload failed: it would not decode, or it
/// arrived at the wrong time. Both are fatal: the session is already in
/// its terminal error phase when this is returned, and the embedder
/// closes the channel.
#[derive(Clone, Copy, Debug, PartialEq, Eq, Structural)]
pub enum SignalError {
    Codec(CodecError),
    Protocol(ProtocolError),
}

/// The mathematical content of a [`SignallingDispatcher`].
pub ghost struct DispatcherView {
    pub session: SessionView,
    pub engine_ready: bool,
}

/// The state after a fatal event: the phase mapped to its error variant,
/// the engine no longer trusted.
pub open spec fn fatal_state(s: DispatcherView) -> DispatcherView {
    DispatcherView {
        session: SessionView { phase: spec_error_phase(s.session.phase), ..s.session },
        engine_ready: false,
    }
}

/// One step of the inbound state machine: the next state, the actions the
/// embedder must perform, and whether the event was legal.
pub ghost struct Step {
    pub state: DispatcherView,
    pub actions: Seq<ActionV>,
    pub result: Result<(), ProtocolError>,
}

/// A fatal step: no actions, the error reported, the state error-mapped.
pub open spec fn fatal_step(s: DispatcherView, e: ProtocolError) -> Step {
    Step { state: fatal_state(s), actions: Seq::empty(), result: Err(e) }
}

/// The transition table of the inbound state machine, one row per
/// message. `Hello` is only legal while registering and leads — the
/// registration settled — straight to joining the session; `SessionOk`
/// only while connecting to the peer, and starts the engine; an answer
/// only while negotiating; a candidate whenever an engine session exists;
/// an error report always, mapping the phase to its error variant and
/// closing the channel.
pub open spec fn step(s: DispatcherView, m: SignalMessageV) -> Step {
    match m {
        SignalMessageV::Hello => {
            if s.session.phase == Phase::ServerRegistering {
                Step {
                    state: DispatcherView {
                        session: SessionView { phase: Phase::PeerConnecting, ..s.session },
                        ..s
                    },
                    actions: seq![
                        ActionV::Send(OutboundMessageV::JoinSession { peer_id: s.session.peer_id }),
                    ],
                    result: Ok(()),
                }
            } else {
                fatal_step(
                    s,
                    ProtocolError::IllegalTransition {
                        from: s.session.phase,
                        to: Phase::ServerRegistered,
                    },
                )
            }
        },
        SignalMessageV::SessionOk => {
            if s.session.phase == Phase::PeerConnecting {
                Step {
                    state: DispatcherView {
                        session: SessionView { phase: Phase::PeerConnected, ..s.session },
                        engine_ready: true,
                    },
                    actions: seq![ActionV::StartEngine],
                    result: Ok(()),
                }
            } else {
                fatal_step(
                    s,
                    ProtocolError::IllegalTransition {
                        from: s.session.phase,
                        to: Phase::PeerConnected,
                    },
                )
            }
        },
        SignalMessageV::Error { text } => Step {
            state: fatal_state(s),
            actions: seq![ActionV::CloseChannel],
            result: Ok(()),
        },
        SignalMessageV::Sdp { kind, sdp } => {
            if s.session.phase != Phase::PeerCallNegotiating || kind != SdpKind::Answer {
                fatal_step(
                    s,
                    ProtocolError::IllegalTransition {
                        from: s.session.phase,
                        to: Phase::PeerCallStarted,
                    },
                )
            } else {
                Step {
                    state: DispatcherView {
                        session: SessionView {
                            phase: Phase::PeerCallStarted,
                            remote_description_set: true,
                            ..s.session
                        },
                        ..s
                    },
                    actions: seq![ActionV::SetRemoteDescription { sdp }],
                    result: Ok(()),
                }
            }
        },
        SignalMessageV::Ice { sdp_mline_index, candidate } => {
            if s.engine_ready {
                Step {
                    state: s,
                    actions: seq![ActionV::AddIceCandidate { sdp_mline_index, candidate }],
                    result: Ok(()),
                }
            } else {
                fatal_step(
                    s,
                    ProtocolError::PrematureAction {
                        required: Phase::PeerConnected,
                        actual: s.session.phase,
                    },
                )
            }
        },
    }
}

/// Every step of the inbound machine respects the phase discipline: the
/// next phase either advances the rank or is the current phase's mapped
/// error variant, and the peer this session calls never changes.
pub proof fn lemma_step_respects_phase_discipline(s: DispatcherView, m: SignalMessageV)
    ensures
        ({
            let next = step(s, m).state.session;
            &&& crate::phase::phase_rank(next.phase) >= crate::phase::phase_rank(s.session.phase)
                || next.phase == spec_error_phase(s.session.phase)
            &&& next.peer_id == s.session.peer_id
        }),
{
}

/// The signalling dispatcher for one connection.
pub struct SignallingDispatcher {
    session: Session,
    engine_ready: bool,
}

impl View for SignallingDispatcher {
    type V = DispatcherView;

    closed spec fn view(&self) -> DispatcherView {
        DispatcherView { session: self.session@, engine_ready: self.engine_ready }
    }
}

/// Relies on `rand::random_range`: a value drawn uniformly from the given
/// range, here `10..10_000`, so the result lies in that range.
#[verifier::external_body]
fn random_client_id() -> (r: u32)
    ensures
        10 <= r < 10000,
{
    rand::random_range(10u32..10_000)
}

impl SignallingDispatcher {
    /// A dispatcher for a fresh connection that will call `peer_id`.
    pub fn new(peer_id: String) -> (d: SignallingDispatcher)
        ensures
            d@ == (DispatcherView {
                session: SessionView {
                    phase: Phase::ServerConnecting,
                    peer_id: peer_id@,
                    local_description_set: false,
                    remote_description_set: false,
                },
                engine_ready: false,
            }),
    {
        SignallingDispatcher { session: Session::new(peer_id), engine_ready: false }
    }

    /// The current phase.
    pub fn current_phase(&self) -> (p: Phase)
        ensures
            p == self@.session.phase,
    {
        self.session.current()
    }

    /// Whether a media engine session exists.
    pub fn engine_ready(&self) -> (r: bool)
        ensures
            r == self@.engine_ready,
    {
        self.engine_ready
    }

    /// Move to the terminal error phase and drop the engine session.
    fn fatal(&mut self)
        ensures
            final(self)@ == fatal_state(old(self)@),
    {
        let cur = self.session.current();
        let moved = self.session.transition(cur.error_phase());
        assert(moved is Ok);
        self.engine_ready = false;
    }

    /// The channel opened: register under a fresh random client id. Legal
    /// only on a fresh session.
    pub fn on_channel_open(&mut self) -> (r: Result<Vec<Action>, ProtocolError>)
        ensures
            old(self)@.session.phase == Phase::ServerConnecting ==> {
                &&& final(self)@ == (DispatcherView {
                    session: SessionView {
                        phase: Phase::ServerRegistering,
                        ..old(self)@.session
                    },
                    ..old(self)@
                })
                &&& r matches Ok(acts) && acts@.len() == 1 && (acts@[0]@ matches ActionV::Send(
                    OutboundMessageV::Register { id },
                ) && 10 <= id < 10000)
            },
            old(self)@.session.phase != Phase::ServerConnecting ==> {
                &&& final(self)@ == fatal_state(old(self)@)
                &&& r == Err::<Vec<Action>, ProtocolError>(ProtocolError::IllegalTransition {
                    from: old(self)@.session.phase,
                    to: Phase::ServerConnected,
                })
            },
    {
        let cur = self.session.current();
        if cur != Phase::ServerConnecting {
            self.fatal();
            return Err(ProtocolError::IllegalTransition {
                from: cur,
                to: Phase::ServerConnected,
            });
        }
        let connected = self.session.transition(Phase::ServerConnected);
        assert(connected is Ok);
        let registering = self.session.transition(Phase::ServerRegistering);
        assert(registering is Ok);
        let id = random_client_id();
        let mut acts: Vec<Action> = Vec::new();
        acts.push(Action::Send(OutboundMessage::Register { id }));
        Ok(acts)
    }

    /// An inbound payload: decode it and take the step the transition
    /// table gives. On any error — undecodable payload or illegal event —
    /// the session is already in its terminal error phase when this
    /// returns, and the embedder must close the channel.
    pub fn on_message(&mut self, raw: &str) -> (r: Result<Vec<Action>, SignalError>)
        ensures
            ({
                let d0 = old(self)@;
                match codec::decode_spec(raw@) {
                    Err(ce) => final(self)@ == fatal_state(d0) && r == Err::<
                        Vec<Action>,
                        SignalError,
                    >(SignalError::Codec(ce)),
                    Ok(mv) => {
                        let st = step(d0, mv);
                        &&& final(self)@ == st.state
                        &&& match r {
                            Ok(acts) => st.result is Ok && actions_view(acts@) == st.actions,
                            Err(se) => (se matches SignalError::Protocol(pe) && st.result == Err::<
                                (),
                                ProtocolError,
                            >(pe)),
                        }
                    },
                }
            }),
    {
        let decoded = codec::decode(raw);
        match decoded {
            Err(ce) => {
                self.fatal();
                Err(SignalError::Codec(ce))
            },
            Ok(m) => match m {
                SignalMessage::Hello => self.handle_hello(),
                SignalMessage::SessionOk => self.handle_session_ok(),
                SignalMessage::Error { text: _ } => self.handle_error(),
                SignalMessage::Sdp { kind, sdp } => self.handle_sdp(kind, sdp),
                SignalMessage::Ice { sdp_mline_index, candidate } => self.handle_ice(
                    sdp_mline_index,
                    candidate,
                ),
            },
        }
    }

    /// `Hello`: registration confirmed; immediately ask to join the peer.
    fn handle_hello(&mut self) -> (r: Result<Vec<Action>, SignalError>)
        ensures
            ({
                let st = step(old(self)@, SignalMessageV::Hello);
                &&& final(self)@ == st.state
                &&& match r {
                    Ok(acts) => st.result is Ok && actions_view(acts@) == st.actions,
                    Err(se) => (se matches SignalError::Protocol(pe) && st.result == Err::<
                        (),
                        ProtocolError,
                    >(pe)),
                }
            }),
    {
        let cur = self.session.current();
        if cur != Phase::ServerRegistering {
            self.fatal();
            return Err(SignalError::Protocol(ProtocolError::IllegalTransition {
                from: cur,
                to: Phase::ServerRegistered,
            }));
        }
        let registered = self.session.transition(Phase::ServerRegistered);
        assert(registered is Ok);
        let peer = self.session.peer_id().clone();
        let connecting = self.session.transition(Phase::PeerConnecting);
        assert(connecting is Ok);
        let mut acts: Vec<Action> = Vec::new();
        acts.push(Action::Send(OutboundMessage::JoinSession { peer_id: peer }));
        proof {
            assert(actions_view(acts@) =~= step(old(self)@, SignalMessageV::Hello).actions);
        }
        Ok(acts)
    }

    /// `SessionOk`: the relay paired us; start the media engine.
    fn handle_session_ok(&mut self) -> (r: Result<Vec<Action>, SignalError>)
        ensures
            ({
                let st = step(old(self)@, SignalMessageV::SessionOk);
                &&& final(self)@ == st.state
                &&& match r {
                    Ok(acts) => st.result is Ok && actions_view(acts@) == st.actions,
                    Err(se) => (se matches SignalError::Protocol(pe) && st.result == Err::<
                        (),
                        ProtocolError,
                    >(pe)),
                }
            }),
    {
        let cur = self.session.current();
        if cur != Phase::PeerConnecting {
            self.fatal();
            return Err(SignalError::Protocol(ProtocolError::IllegalTransition {
                from: cur,
                to: Phase::PeerConnected,
            }));
        }
        let connected = self.session.transition(Phase::PeerConnected);
        assert(connected is Ok);
        self.engine_ready = true;
        let mut acts: Vec<Action> = Vec::new();
        acts.push(Action::StartEngine);
        proof {
            assert(actions_view(acts@) =~= step(old(self)@, SignalMessageV::SessionOk).actions);
        }
        Ok(acts)
    }

    /// An error report from the relay: map the phase to its error variant
    /// and have the embedder close the channel.
    fn handle_error(&mut self) -> (r: Result<Vec<Action>, SignalError>)
        ensures
            final(self)@ == fatal_state(old(self)@),
            r matches Ok(acts) && actions_view(acts@) == seq![ActionV::CloseChannel],
    {
        self.fatal();
        let mut acts: Vec<Action> = Vec::new();
        acts.push(Action::CloseChannel);
        proof {
            assert(actions_view(acts@) =~= seq![ActionV::CloseChannel]);
        }
        Ok(acts)
    }

    /// An SDP envelope: only an answer, and only while negotiating.
    fn handle_sdp(&mut self, kind: SdpKind, sdp: String) -> (r: Result<Vec<Action>, SignalError>)
        ensures
            ({
                let st = step(old(self)@, SignalMessageV::Sdp { kind, sdp: sdp@ });
                &&& final(self)@ == st.state
                &&& match r {
                    Ok(acts) => st.result is Ok && actions_view(acts@) == st.actions,
                    Err(se) => (se matches SignalError::Protocol(pe) && st.result == Err::<
                        (),
                        ProtocolError,
                    >(pe)),
                }
            }),
    {
        let cur = self.session.current();
        if cur != Phase::PeerCallNegotiating || kind != SdpKind::Answer {
            self.fatal();
            return Err(SignalError::Protocol(ProtocolError::IllegalTransition {
                from: cur,
                to: Phase::PeerCallStarted,
            }));
        }
        let ghost sv = sdp@;
        match negotiate::handle_answer(&mut self.session, sdp) {
            Ok(acts) => {
                proof {
                    assert(actions_view(acts@) =~= step(
                        old(self)@,
                        SignalMessageV::Sdp { kind, sdp: sv },
                    ).actions);
                }
                Ok(acts)
            },
            Err(_) => vstd::pervasive::unreached(),
        }
    }

    /// A remote candidate: forward it to the engine, which must exist.
    fn handle_ice(&mut self, sdp_mline_index: u32, candidate: String) -> (r: Result<
        Vec<Action>,
        SignalError,
    >)
        ensures
            ({
                let st = step(
                    old(self)@,
                    SignalMessageV::Ice { sdp_mline_index, candidate: candidate@ },
                );
                &&& final(self)@ == st.state
                &&& match r {
                    Ok(acts) => st.result is Ok && actions_view(acts@) == st.actions,
                    Err(se) => (se matches SignalError::Protocol(pe) && st.result == Err::<
                        (),
                        ProtocolError,
                    >(pe)),
                }
            }),
    {
        let ghost cv = candidate@;
        let cur = self.session.current();
        match ice::forward_remote_candidate(self.engine_ready, cur, sdp_mline_index, candidate) {
            Ok(a) => {
                let mut acts: Vec<Action> = Vec::new();
                acts.push(a);
                proof {
                    assert(actions_view(acts@) =~= seq![
                        ActionV::AddIceCandidate { sdp_mline_index, candidate: cv },
                    ]);
                }
                Ok(acts)
            },
            Err(e) => {
                self.fatal();
                Err(SignalError::Protocol(e))
            },
        }
    }

    /// The engine asked to negotiate.
    pub fn on_negotiation_needed(&mut self) -> (r: Result<Vec<Action>, ProtocolError>)
        ensures
            crate::session::spec_transition_allowed(
                old(self)@.session.phase,
                Phase::PeerCallNegotiating,
            ) ==> {
                &&& r matches Ok(acts) && acts@.len() == 1 && acts@[0] == Action::CreateOffer
                &&& final(self)@ == (DispatcherView {
                    session: SessionView {
                        phase: Phase::PeerCallNegotiating,
                        ..old(self)@.session
                    },
                    ..old(self)@
                })
            },
            !crate::session::spec_transition_allowed(
                old(self)@.session.phase,
                Phase::PeerCallNegotiating,
            ) ==> {
                &&& r == Err::<Vec<Action>, ProtocolError>(ProtocolError::IllegalTransition {
                    from: old(self)@.session.phase,
                    to: Phase::PeerCallNegotiating,
                })
                &&& final(self)@ == fatal_state(old(self)@)
            },
    {
        match negotiate::on_negotiation_needed(&mut self.session) {
            Ok(acts) => Ok(acts),
            Err(e) => {
                self.engine_ready = false;
                Err(e)
            },
        }
    }

    /// The engine's offer is ready.
    pub fn on_offer_created(&mut self, sdp: String) -> (r: Result<Vec<Action>, ProtocolError>)
        ensures
            old(self)@.session.phase == Phase::PeerCallNegotiating ==> {
                &&& r matches Ok(acts) && acts@.len() == 2 && acts@[0]@
                    == ActionV::SetLocalDescription { sdp: sdp@ } && acts@[1]@ == ActionV::Send(
                    OutboundMessageV::Offer { sdp: sdp@ },
                )
                &&& final(self)@ == (DispatcherView {
                    session: SessionView { local_description_set: true, ..old(self)@.session },
                    ..old(self)@
                })
            },
            old(self)@.session.phase != Phase::PeerCallNegotiating ==> {
                &&& r == Err::<Vec<Action>, ProtocolError>(ProtocolError::IllegalTransition {
                    from: old(self)@.session.phase,
                    to: Phase::PeerCallNegotiating,
                })
                &&& final(self)@ == fatal_state(old(self)@)
            },
    {
        match negotiate::on_offer_created(&mut self.session, sdp) {
            Ok(acts) => Ok(acts),
            Err(e) => {
                self.engine_ready = false;
                Err(e)
            },
        }
    }

    /// The engine generated a local candidate.
    pub fn on_ice_candidate(&mut self, sdp_mline_index: u32, candidate: String) -> (r: Result<
        Vec<Action>,
        ProtocolError,
    >)
        ensures
            crate::phase::spec_is_at_least(
                old(self)@.session.phase,
                Phase::PeerCallNegotiating,
            ) ==> {
                &&& r matches Ok(acts) && acts@.len() == 1 && acts@[0]@ == ActionV::Send(
                    OutboundMessageV::IceCandidate { sdp_mline_index, candidate: candidate@ },
                )
                &&& final(self)@ == old(self)@
            },
            !crate::phase::spec_is_at_least(
                old(self)@.session.phase,
                Phase::PeerCallNegotiating,
            ) ==> {
                &&& r == Err::<Vec<Action>, ProtocolError>(ProtocolError::PrematureAction {
                    required: Phase::PeerCallNegotiating,
                    actual: old(self)@.session.phase,
                })
                &&& final(self)@ == fatal_state(old(self)@)
            },
    {
        match ice::on_ice_candidate_generated(&self.session, sdp_mline_index, candidate) {
            Ok(a) => {
                let mut acts: Vec<Action> = Vec::new();
                acts.push(a);
                Ok(acts)
            },
            Err(e) => {
                self.fatal();
                Err(e)
            },
        }
    }

    /// The engine surfaced a failure. Every engine error is fatal: the
    /// session moves to its terminal error phase and the channel closes;
    /// no partial recovery is attempted.
    pub fn on_engine_error(&mut self) -> (acts: Vec<Action>)
        ensures
            final(self)@ == fatal_state(old(self)@),
            actions_view(acts@) == seq![ActionV::CloseChannel],
    {
        self.fatal();
        let mut acts: Vec<Action> = Vec::new();
        acts.push(Action::CloseChannel);
        proof {
            assert(actions_view(acts@) =~= seq![ActionV::CloseChannel]);
        }
        acts
    }

    /// The channel closed: the session is over.
    pub fn on_channel_close(&mut self)
        ensures
            final(self)@ == (DispatcherView {
                session: SessionView { phase: Phase::ServerClosed, ..old(self)@.session },
                engine_ready: false,
            }),
    {
        let closed = self.session.transition(Phase::ServerClosed);
        assert(closed is Ok);
        self.engine_ready = false;
    }
}

} // verus!
