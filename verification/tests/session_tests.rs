use webrtc_signalling::negotiate::{on_offer_created, send_offer};
use webrtc_signalling::phase::Phase;
use webrtc_signalling::session::{ProtocolError, Session};

#[test]
fn new_session_starts_connecting() {
    let s = Session::new("peer".to_string());
    assert_eq!(s.current(), Phase::ServerConnecting);
    assert_eq!(s.peer_id().as_str(), "peer");
}

#[test]
fn forward_transitions_are_allowed() {
    let mut s = Session::new("p".to_string());
    assert_eq!(s.transition(Phase::ServerConnected), Ok(()));
    assert_eq!(s.transition(Phase::ServerRegistering), Ok(()));
    assert_eq!(s.transition(Phase::ServerRegistered), Ok(()));
    assert_eq!(s.transition(Phase::PeerConnecting), Ok(()));
    assert_eq!(s.transition(Phase::PeerConnected), Ok(()));
    assert_eq!(s.transition(Phase::PeerCallNegotiating), Ok(()));
    assert_eq!(s.transition(Phase::PeerCallStarted), Ok(()));
    assert_eq!(s.current(), Phase::PeerCallStarted);
}

#[test]
fn regression_is_refused() {
    let mut s = Session::new("p".to_string());
    s.transition(Phase::PeerConnected).unwrap();
    assert_eq!(
        s.transition(Phase::ServerRegistering),
        Err(ProtocolError::IllegalTransition {
            from: Phase::PeerConnected,
            to: Phase::ServerRegistering,
        })
    );
    assert_eq!(s.current(), Phase::PeerConnected);
}

#[test]
fn error_jump_is_allowed_even_backward() {
    let mut s = Session::new("p".to_string());
    s.transition(Phase::PeerCallStarted).unwrap();
    // a settled phase maps to the generic error phase, far below it
    assert_eq!(s.transition(Phase::GenericError), Ok(()));
    assert_eq!(s.current(), Phase::GenericError);
}

#[test]
fn terminal_phases_admit_no_advance() {
    let mut s = Session::new("p".to_string());
    s.transition(Phase::ServerClosed).unwrap();
    assert!(s.transition(Phase::PeerConnecting).is_err());
    assert_eq!(s.current(), Phase::ServerClosed);

    let mut s = Session::new("p".to_string());
    s.transition(Phase::ServerConnectionError).unwrap();
    assert!(s.transition(Phase::ServerConnected).is_err());
    assert_eq!(s.current(), Phase::ServerConnectionError);
}

#[test]
fn close_is_always_allowed() {
    let mut s = Session::new("p".to_string());
    s.transition(Phase::PeerCallNegotiating).unwrap();
    assert_eq!(s.transition(Phase::ServerClosed), Ok(()));
}

#[test]
fn require_at_least_guards_by_rank() {
    let mut s = Session::new("p".to_string());
    assert_eq!(
        s.require_at_least(Phase::PeerCallNegotiating),
        Err(ProtocolError::PrematureAction {
            required: Phase::PeerCallNegotiating,
            actual: Phase::ServerConnecting,
        })
    );
    s.transition(Phase::PeerCallNegotiating).unwrap();
    assert_eq!(s.require_at_least(Phase::PeerCallNegotiating), Ok(()));
    s.transition(Phase::PeerCallStarted).unwrap();
    assert_eq!(s.require_at_least(Phase::PeerCallNegotiating), Ok(()));
}

#[test]
fn offer_send_before_negotiating_is_premature() {
    // every phase strictly before PeerCallNegotiating refuses the offer
    for target in [
        None,
        Some(Phase::ServerConnected),
        Some(Phase::ServerRegistering),
        Some(Phase::ServerRegistered),
        Some(Phase::PeerConnecting),
        Some(Phase::PeerConnected),
    ] {
        let mut s = Session::new("p".to_string());
        if let Some(t) = target {
            s.transition(t).unwrap();
        }
        let phase = s.current();
        assert_eq!(
            send_offer(&s, "v=0".to_string()),
            Err(ProtocolError::PrematureAction {
                required: Phase::PeerCallNegotiating,
                actual: phase,
            })
        );
    }
}

#[test]
fn offer_send_while_negotiating_succeeds() {
    let mut s = Session::new("p".to_string());
    s.transition(Phase::PeerCallNegotiating).unwrap();
    assert!(send_offer(&s, "v=0".to_string()).is_ok());
}

#[test]
fn stale_offer_completion_is_an_illegal_transition() {
    let mut s = Session::new("p".to_string());
    s.transition(Phase::PeerConnected).unwrap();
    assert_eq!(
        on_offer_created(&mut s, "v=0".to_string()),
        Err(ProtocolError::IllegalTransition {
            from: Phase::PeerConnected,
            to: Phase::PeerCallNegotiating,
        })
    );
    // the failure is fatal: the session lands in the band's error phase
    assert_eq!(s.current(), Phase::PeerConnectionError);
}
