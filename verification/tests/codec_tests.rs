use webrtc_signalling::codec::{decode, encode};
use webrtc_signalling::msg::{CodecError, OutboundMessage, SdpKind, SignalMessage};

#[test]
fn decode_hello_token() {
    assert_eq!(decode("HELLO"), Ok(SignalMessage::Hello));
}

#[test]
fn decode_session_ok_token() {
    assert_eq!(decode("SESSION_OK"), Ok(SignalMessage::SessionOk));
}

#[test]
fn decode_error_token_keeps_text() {
    assert_eq!(
        decode("ERROR: foo"),
        Ok(SignalMessage::Error { text: "ERROR: foo".to_string() })
    );
    assert_eq!(
        decode("ERRORS everywhere"),
        Ok(SignalMessage::Error { text: "ERRORS everywhere".to_string() })
    );
    assert_eq!(decode("ERROR"), Ok(SignalMessage::Error { text: "ERROR".to_string() }));
}

#[test]
fn decode_error_prefix_must_be_whole() {
    assert_eq!(decode("ERRO"), Err(CodecError::UnknownEnvelope));
    assert_eq!(decode("error"), Err(CodecError::UnknownEnvelope));
}

#[test]
fn decode_sdp_answer() {
    let m = decode("{\"sdp\":{\"type\":\"answer\",\"sdp\":\"v=0...\"}}");
    assert_eq!(
        m,
        Ok(SignalMessage::Sdp { kind: SdpKind::Answer, sdp: "v=0...".to_string() })
    );
}

#[test]
fn decode_sdp_offer() {
    let m = decode("{\"sdp\":{\"type\":\"offer\",\"sdp\":\"v=0\"}}");
    assert_eq!(m, Ok(SignalMessage::Sdp { kind: SdpKind::Offer, sdp: "v=0".to_string() }));
}

#[test]
fn decode_sdp_with_whitespace_and_key_order() {
    let m = decode("  { \"sdp\" : { \"sdp\" : \"x\" , \"type\" : \"answer\" } }  ");
    assert_eq!(m, Ok(SignalMessage::Sdp { kind: SdpKind::Answer, sdp: "x".to_string() }));
}

#[test]
fn decode_ice() {
    let m = decode("{\"ice\":{\"candidate\":\"cand 1\",\"sdpMLineIndex\":5}}");
    assert_eq!(
        m,
        Ok(SignalMessage::Ice { sdp_mline_index: 5, candidate: "cand 1".to_string() })
    );
}

#[test]
fn decode_ice_key_order_swapped() {
    let m = decode("{\"ice\":{\"sdpMLineIndex\":0,\"candidate\":\"c\"}}");
    assert_eq!(m, Ok(SignalMessage::Ice { sdp_mline_index: 0, candidate: "c".to_string() }));
}

#[test]
fn decode_sdp_bad_kind_is_malformed() {
    assert_eq!(
        decode("{\"sdp\":{\"type\":\"bogus\",\"sdp\":\"x\"}}"),
        Err(CodecError::MalformedSdp)
    );
}

#[test]
fn decode_sdp_missing_text_is_malformed() {
    assert_eq!(decode("{\"sdp\":{\"type\":\"answer\"}}"), Err(CodecError::MalformedSdp));
}

#[test]
fn decode_sdp_not_an_object_is_malformed() {
    assert_eq!(decode("{\"sdp\":\"x\"}"), Err(CodecError::MalformedSdp));
}

#[test]
fn decode_ice_missing_index_is_malformed() {
    assert_eq!(decode("{\"ice\":{\"candidate\":\"c\"}}"), Err(CodecError::MalformedIce));
}

#[test]
fn decode_ice_index_too_large_is_malformed() {
    assert_eq!(
        decode("{\"ice\":{\"candidate\":\"c\",\"sdpMLineIndex\":4294967296}}"),
        Err(CodecError::MalformedIce)
    );
}

#[test]
fn decode_ice_index_at_limit_is_accepted() {
    assert_eq!(
        decode("{\"ice\":{\"candidate\":\"c\",\"sdpMLineIndex\":4294967295}}"),
        Ok(SignalMessage::Ice { sdp_mline_index: 4294967295, candidate: "c".to_string() })
    );
}

#[test]
fn decode_unknown_envelopes() {
    assert_eq!(decode("{\"foo\":\"bar\"}"), Err(CodecError::UnknownEnvelope));
    assert_eq!(decode("garbage"), Err(CodecError::UnknownEnvelope));
    assert_eq!(decode("{"), Err(CodecError::UnknownEnvelope));
    assert_eq!(decode(""), Err(CodecError::UnknownEnvelope));
    assert_eq!(decode("{}"), Err(CodecError::UnknownEnvelope));
    assert_eq!(decode("{\"sdp\":{\"type\":\"answer\",\"sdp\":\"x\"}} trailing"),
        Err(CodecError::UnknownEnvelope));
}

#[test]
fn decode_unescapes_strings() {
    let m = decode("{\"sdp\":{\"type\":\"answer\",\"sdp\":\"a\\\"b\\\\c\\nd\"}}");
    assert_eq!(
        m,
        Ok(SignalMessage::Sdp { kind: SdpKind::Answer, sdp: "a\"b\\c\nd".to_string() })
    );
}

#[test]
fn decode_unicode_escapes() {
    let m = decode("{\"sdp\":{\"type\":\"answer\",\"sdp\":\"\\u0041\\u000a\"}}");
    assert_eq!(m, Ok(SignalMessage::Sdp { kind: SdpKind::Answer, sdp: "A\n".to_string() }));
}

#[test]
fn decode_rejects_bare_control_characters() {
    assert_eq!(
        decode("{\"sdp\":{\"type\":\"answer\",\"sdp\":\"a\u{1}b\"}}"),
        Err(CodecError::UnknownEnvelope)
    );
}

#[test]
fn decode_rejects_surrogate_escape() {
    assert_eq!(
        decode("{\"sdp\":{\"type\":\"answer\",\"sdp\":\"\\ud800\"}}"),
        Err(CodecError::UnknownEnvelope)
    );
}

#[test]
fn encode_register() {
    let s = encode(&OutboundMessage::Register { id: 42 });
    assert_eq!(s, "HELLO 42");
    let s = encode(&OutboundMessage::Register { id: 9999 });
    assert_eq!(s, "HELLO 9999");
}

#[test]
fn encode_join_session() {
    let s = encode(&OutboundMessage::JoinSession { peer_id: "peer1".to_string() });
    assert_eq!(s, "SESSION peer1");
}

#[test]
fn encode_offer() {
    let s = encode(&OutboundMessage::Offer { sdp: "v=0...".to_string() });
    assert_eq!(s, "{\"sdp\":{\"type\":\"offer\",\"sdp\":\"v=0...\"}}");
}

#[test]
fn encode_offer_escapes() {
    let s = encode(&OutboundMessage::Offer { sdp: "a\"b\\c\r\nd\u{1}".to_string() });
    assert_eq!(s, "{\"sdp\":{\"type\":\"offer\",\"sdp\":\"a\\\"b\\\\c\\r\\nd\\u0001\"}}");
}

#[test]
fn encode_ice_candidate() {
    let s = encode(&OutboundMessage::IceCandidate {
        sdp_mline_index: 3,
        candidate: "cand".to_string(),
    });
    assert_eq!(s, "{\"ice\":{\"candidate\":\"cand\",\"sdpMLineIndex\":3}}");
}

#[test]
fn round_trip_offer() {
    for sdp in ["v=0...", "", "a\"b\\c\nd", "tab\there", "caf\u{e9} \u{65e5}\u{672c}", "\u{0}\u{1f}"] {
        let encoded = encode(&OutboundMessage::Offer { sdp: sdp.to_string() });
        assert_eq!(
            decode(&encoded),
            Ok(SignalMessage::Sdp { kind: SdpKind::Offer, sdp: sdp.to_string() })
        );
    }
}

#[test]
fn round_trip_ice() {
    for (ix, cand) in [(0u32, "a"), (4294967295, "cand \"x\" \\slash"), (7, "")] {
        let encoded = encode(&OutboundMessage::IceCandidate {
            sdp_mline_index: ix,
            candidate: cand.to_string(),
        });
        assert_eq!(
            decode(&encoded),
            Ok(SignalMessage::Ice { sdp_mline_index: ix, candidate: cand.to_string() })
        );
    }
}
