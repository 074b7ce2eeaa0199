use webrtc_signalling::codec::encode;
use webrtc_signalling::dispatch::{SignalError, SignallingDispatcher};
use webrtc_signalling::msg::{Action, OutboundMessage};
use webrtc_signalling::phase::Phase;
use webrtc_signalling::session::ProtocolError;

/// Drive a fresh dispatcher through registration: open the channel and
/// deliver `HELLO`. Returns the dispatcher at `PeerConnecting`.
fn registered_dispatcher() -> SignallingDispatcher {
    let mut d = SignallingDispatcher::new("peer1".to_string());
    let acts = d.on_channel_open().expect("open");
    assert_eq!(acts.len(), 1);
    let acts = d.on_message("HELLO").expect("hello");
    assert_eq!(acts.len(), 1);
    d
}

/// Continue to `PeerConnected` with `SESSION_OK`.
fn connected_dispatcher() -> SignallingDispatcher {
    let mut d = registered_dispatcher();
    let acts = d.on_message("SESSION_OK").expect("session ok");
    assert_eq!(acts, vec![Action::StartEngine]);
    d
}

/// Continue to `PeerCallNegotiating` with the engine's notification.
fn negotiating_dispatcher() -> SignallingDispatcher {
    let mut d = connected_dispatcher();
    let acts = d.on_negotiation_needed().expect("negotiation needed");
    assert_eq!(acts, vec![Action::CreateOffer]);
    d
}

#[test]
fn scenario_a_open_register_hello_join() {
    let mut d = SignallingDispatcher::new("peer1".to_string());
    assert_eq!(d.current_phase(), Phase::ServerConnecting);

    let acts = d.on_channel_open().expect("open");
    assert_eq!(d.current_phase(), Phase::ServerRegistering);
    assert_eq!(acts.len(), 1);
    match &acts[0] {
        Action::Send(OutboundMessage::Register { id }) => {
            assert!(*id >= 10 && *id < 10000);
            let wire = encode(&OutboundMessage::Register { id: *id });
            assert!(wire.starts_with("HELLO "));
        }
        other => panic!("unexpected action {:?}", other),
    }

    let acts = d.on_message("HELLO").expect("hello");
    assert_eq!(d.current_phase(), Phase::PeerConnecting);
    assert_eq!(
        acts,
        vec![Action::Send(OutboundMessage::JoinSession { peer_id: "peer1".to_string() })]
    );
    assert_eq!(encode(&OutboundMessage::JoinSession { peer_id: "peer1".to_string() }),
        "SESSION peer1");
}

#[test]
fn scenario_b_session_ok_then_offer() {
    let mut d = registered_dispatcher();
    assert!(!d.engine_ready());

    let acts = d.on_message("SESSION_OK").expect("session ok");
    assert_eq!(d.current_phase(), Phase::PeerConnected);
    assert!(d.engine_ready());
    assert_eq!(acts, vec![Action::StartEngine]);

    let acts = d.on_negotiation_needed().expect("negotiation needed");
    assert_eq!(d.current_phase(), Phase::PeerCallNegotiating);
    assert_eq!(acts, vec![Action::CreateOffer]);

    let acts = d.on_offer_created("v=0...".to_string()).expect("offer created");
    assert_eq!(d.current_phase(), Phase::PeerCallNegotiating);
    assert_eq!(acts.len(), 2);
    assert_eq!(acts[0], Action::SetLocalDescription { sdp: "v=0...".to_string() });
    match &acts[1] {
        Action::Send(m) => {
            assert_eq!(encode(m), "{\"sdp\":{\"type\":\"offer\",\"sdp\":\"v=0...\"}}");
        }
        other => panic!("unexpected action {:?}", other),
    }
}

#[test]
fn scenario_c_answer_starts_call() {
    let mut d = negotiating_dispatcher();
    let acts = d
        .on_message("{\"sdp\":{\"type\":\"answer\",\"sdp\":\"v=0...\"}}")
        .expect("answer");
    assert_eq!(d.current_phase(), Phase::PeerCallStarted);
    assert_eq!(acts, vec![Action::SetRemoteDescription { sdp: "v=0...".to_string() }]);
}

#[test]
fn scenario_d_error_while_registering() {
    let mut d = SignallingDispatcher::new("peer1".to_string());
    d.on_channel_open().expect("open");
    assert_eq!(d.current_phase(), Phase::ServerRegistering);

    let acts = d.on_message("ERROR: foo").expect("error report is handled");
    assert_eq!(d.current_phase(), Phase::ServerRegisteringError);
    assert_eq!(acts, vec![Action::CloseChannel]);
}

#[test]
fn error_reports_map_each_phase_to_its_error_variant() {
    let mut d = SignallingDispatcher::new("p".to_string());
    d.on_message("ERROR x").expect("handled");
    assert_eq!(d.current_phase(), Phase::ServerConnectionError);

    let mut d = registered_dispatcher();
    d.on_message("ERROR x").expect("handled");
    assert_eq!(d.current_phase(), Phase::PeerConnectionError);

    let mut d = negotiating_dispatcher();
    d.on_message("ERROR x").expect("handled");
    assert_eq!(d.current_phase(), Phase::PeerCallError);

    let mut d = negotiating_dispatcher();
    d.on_message("{\"sdp\":{\"type\":\"answer\",\"sdp\":\"v=0\"}}").expect("answer");
    assert_eq!(d.current_phase(), Phase::PeerCallStarted);
    d.on_message("ERROR x").expect("handled");
    assert_eq!(d.current_phase(), Phase::GenericError);
}

#[test]
fn hello_twice_is_an_illegal_transition() {
    let mut d = registered_dispatcher();
    let err = d.on_message("HELLO").expect_err("second hello must fail");
    match err {
        SignalError::Protocol(ProtocolError::IllegalTransition { from, to }) => {
            assert_eq!(from, Phase::PeerConnecting);
            assert_eq!(to, Phase::ServerRegistered);
        }
        other => panic!("unexpected error {:?}", other),
    }
    assert_eq!(d.current_phase(), Phase::PeerConnectionError);
}

#[test]
fn offer_kind_while_negotiating_is_rejected() {
    let mut d = negotiating_dispatcher();
    let err = d
        .on_message("{\"sdp\":{\"type\":\"offer\",\"sdp\":\"v=0\"}}")
        .expect_err("an offer from the peer is not accepted");
    assert!(matches!(
        err,
        SignalError::Protocol(ProtocolError::IllegalTransition { .. })
    ));
    assert_eq!(d.current_phase(), Phase::PeerCallError);
}

#[test]
fn session_ok_in_wrong_phase_is_illegal() {
    let mut d = SignallingDispatcher::new("p".to_string());
    d.on_channel_open().expect("open");
    let err = d.on_message("SESSION_OK").expect_err("not connecting yet");
    assert!(matches!(
        err,
        SignalError::Protocol(ProtocolError::IllegalTransition { .. })
    ));
    assert_eq!(d.current_phase(), Phase::ServerRegisteringError);
}

#[test]
fn answer_in_wrong_phase_is_illegal() {
    let mut d = connected_dispatcher();
    let err = d
        .on_message("{\"sdp\":{\"type\":\"answer\",\"sdp\":\"v=0\"}}")
        .expect_err("no negotiation under way");
    assert!(matches!(
        err,
        SignalError::Protocol(ProtocolError::IllegalTransition { .. })
    ));
}

#[test]
fn undecodable_payload_is_fatal() {
    let mut d = registered_dispatcher();
    let err = d.on_message("{\"what\":1}").expect_err("unknown envelope");
    assert!(matches!(err, SignalError::Codec(_)));
    assert_eq!(d.current_phase(), Phase::PeerConnectionError);
}

#[test]
fn inbound_candidate_forwarded_once_engine_exists() {
    let mut d = connected_dispatcher();
    let before = d.current_phase();
    let acts = d
        .on_message("{\"ice\":{\"candidate\":\"cand\",\"sdpMLineIndex\":1}}")
        .expect("candidate");
    assert_eq!(
        acts,
        vec![Action::AddIceCandidate { sdp_mline_index: 1, candidate: "cand".to_string() }]
    );
    assert_eq!(d.current_phase(), before);

    // candidates still flow while negotiating and after the call started
    let mut d = negotiating_dispatcher();
    let acts = d
        .on_message("{\"ice\":{\"candidate\":\"c2\",\"sdpMLineIndex\":0}}")
        .expect("candidate");
    assert_eq!(acts.len(), 1);
    assert_eq!(d.current_phase(), Phase::PeerCallNegotiating);
}

#[test]
fn inbound_candidate_without_engine_is_premature() {
    let mut d = registered_dispatcher();
    let err = d
        .on_message("{\"ice\":{\"candidate\":\"c\",\"sdpMLineIndex\":0}}")
        .expect_err("no engine session yet");
    assert!(matches!(
        err,
        SignalError::Protocol(ProtocolError::PrematureAction { .. })
    ));
}

#[test]
fn outbound_candidate_before_negotiating_is_premature() {
    // every phase strictly before PeerCallNegotiating refuses the send
    let mut d = SignallingDispatcher::new("p".to_string());
    let err = d.on_ice_candidate(0, "c".to_string()).expect_err("premature");
    assert_eq!(
        err,
        ProtocolError::PrematureAction {
            required: Phase::PeerCallNegotiating,
            actual: Phase::ServerConnecting,
        }
    );

    let mut d = registered_dispatcher();
    let err = d.on_ice_candidate(0, "c".to_string()).expect_err("premature");
    assert_eq!(
        err,
        ProtocolError::PrematureAction {
            required: Phase::PeerCallNegotiating,
            actual: Phase::PeerConnecting,
        }
    );

    let mut d = connected_dispatcher();
    let err = d.on_ice_candidate(0, "c".to_string()).expect_err("premature");
    assert_eq!(
        err,
        ProtocolError::PrematureAction {
            required: Phase::PeerCallNegotiating,
            actual: Phase::PeerConnected,
        }
    );
}

#[test]
fn outbound_candidate_while_negotiating_is_sent() {
    let mut d = negotiating_dispatcher();
    let acts = d.on_ice_candidate(2, "cand".to_string()).expect("sent");
    assert_eq!(acts.len(), 1);
    match &acts[0] {
        Action::Send(m) => {
            assert_eq!(encode(m), "{\"ice\":{\"candidate\":\"cand\",\"sdpMLineIndex\":2}}");
        }
        other => panic!("unexpected action {:?}", other),
    }
}

#[test]
fn stale_offer_callback_after_close_is_refused() {
    let mut d = negotiating_dispatcher();
    d.on_channel_close();
    assert_eq!(d.current_phase(), Phase::ServerClosed);
    let err = d.on_offer_created("v=0".to_string()).expect_err("stale callback");
    assert!(matches!(err, ProtocolError::IllegalTransition { .. }));
}

#[test]
fn engine_error_is_fatal_and_closes_the_channel() {
    let mut d = negotiating_dispatcher();
    let acts = d.on_engine_error();
    assert_eq!(acts, vec![Action::CloseChannel]);
    assert_eq!(d.current_phase(), Phase::PeerCallError);
    assert!(!d.engine_ready());
}

#[test]
fn close_moves_to_server_closed() {
    let mut d = registered_dispatcher();
    d.on_channel_close();
    assert_eq!(d.current_phase(), Phase::ServerClosed);
    assert!(!d.engine_ready());
}
