//! The message codec: the exact wire text of every outbound message and
//! the decoding of every inbound payload, with decoding proved to invert
//! encoding for the two envelope messages.

use vstd::prelude::*;

use crate::envelope::{
    lemma_parse_envelope_obj2, member_text, parse_envelope, prim_ok, spec_parse_envelope,
    top_members_view, PrimV, PrimValue, TopV, TopValue,
};
use crate::jsontext::{
    char_from_u32, dec_str, escape_char, escape_seq, hex_char, is_scalar_value,
    lemma_char_bounds, lemma_escape_plain, max_numeral_digits, pow10, push_char, quote,
};
use crate::msg::{CodecError, OutboundMessage, OutboundMessageV, SdpKind, SignalMessage,
    SignalMessageV};

verus! {

// ---------------------------------------------------------------------------
// the fixed words of the wire vocabulary

/// The bare registration token.
pub open spec fn hello_lit() -> Seq<char> {
    seq!['H', 'E', 'L', 'L', 'O']
}

/// The bare pairing token.
pub open spec fn session_ok_lit() -> Seq<char> {
    seq!['S', 'E', 'S', 'S', 'I', 'O', 'N', '_', 'O', 'K']
}

/// The prefix marking an error report.
pub open spec fn error_prefix() -> Seq<char> {
    seq!['E', 'R', 'R', 'O', 'R']
}

/// The registration token with its separating space.
pub open spec fn hello_sp() -> Seq<char> {
    seq!['H', 'E', 'L', 'L', 'O', ' ']
}

/// The pairing token with its separating space.
pub open spec fn session_sp() -> Seq<char> {
    seq!['S', 'E', 'S', 'S', 'I', 'O', 'N', ' ']
}

/// The envelope key of an SDP message, and the inner key of its text.
pub open spec fn sdp_key() -> Seq<char> {
    seq!['s', 'd', 'p']
}

/// The envelope key of an ICE message.
pub open spec fn ice_key() -> Seq<char> {
    seq!['i', 'c', 'e']
}

/// The inner key naming an SDP document's kind.
pub open spec fn type_key() -> Seq<char> {
    seq!['t', 'y', 'p', 'e']
}

/// The inner key of a candidate's text.
pub open spec fn candidate_key() -> Seq<char> {
    seq!['c', 'a', 'n', 'd', 'i', 'd', 'a', 't', 'e']
}

/// The inner key of a candidate's media line index.
pub open spec fn mline_key() -> Seq<char> {
    seq!['s', 'd', 'p', 'M', 'L', 'i', 'n', 'e', 'I', 'n', 'd', 'e', 'x']
}

/// The SDP kind word of an offer.
pub open spec fn offer_lit() -> Seq<char> {
    seq!['o', 'f', 'f', 'e', 'r']
}

/// The SDP kind word of an answer.
pub open spec fn answer_lit() -> Seq<char> {
    seq!['a', 'n', 's', 'w', 'e', 'r']
}

// ---------------------------------------------------------------------------
// encoding

/// The envelope text of an SDP offer.
pub open spec fn offer_env(sdp: Seq<char>) -> Seq<char> {
    seq!['{'] + quote(sdp_key()) + seq![':'] + seq!['{'] + member_text(
        type_key(),
        PrimV::S(offer_lit()),
    ) + seq![','] + member_text(sdp_key(), PrimV::S(sdp)) + seq!['}'] + seq!['}']
}

/// The envelope text of an ICE candidate.
pub open spec fn ice_env(sdp_mline_index: u32, candidate: Seq<char>) -> Seq<char> {
    seq!['{'] + quote(ice_key()) + seq![':'] + seq!['{'] + member_text(
        candidate_key(),
        PrimV::S(candidate),
    ) + seq![','] + member_text(mline_key(), PrimV::N(sdp_mline_index as int)) + seq!['}']
        + seq!['}']
}

/// The exact wire text of each outbound message.
pub open spec fn encode_spec(m: OutboundMessageV) -> Seq<char> {
    match m {
        OutboundMessageV::Register { id } => hello_sp() + dec_str(id as int),
        OutboundMessageV::JoinSession { peer_id } => session_sp() + peer_id,
        OutboundMessageV::Offer { sdp } => offer_env(sdp),
        OutboundMessageV::IceCandidate { sdp_mline_index, candidate } => ice_env(
            sdp_mline_index,
            candidate,
        ),
    }
}

// ---------------------------------------------------------------------------
// decoding

/// First value under `k`, if any.
pub open spec fn lookup_top(ms: Seq<(Seq<char>, TopV)>, k: Seq<char>) -> Option<TopV>
    decreases ms.len(),
{
    if ms.len() == 0 {
        None
    } else if ms[0].0 == k {
        Some(ms[0].1)
    } else {
        lookup_top(ms.skip(1), k)
    }
}

/// First value under `k`, if any.
pub open spec fn lookup_prim(ms: Seq<(Seq<char>, PrimV)>, k: Seq<char>) -> Option<PrimV>
    decreases ms.len(),
{
    if ms.len() == 0 {
        None
    } else if ms[0].0 == k {
        Some(ms[0].1)
    } else {
        lookup_prim(ms.skip(1), k)
    }
}

/// What an `sdp` envelope's value must hold: an object with a `type` of
/// `offer` or `answer` and an `sdp` string.
pub open spec fn classify_sdp(v: TopV) -> Result<SignalMessageV, CodecError> {
    match v {
        TopV::Obj(inner) => match (lookup_prim(inner, type_key()), lookup_prim(inner, sdp_key())) {
            (Some(PrimV::S(t)), Some(PrimV::S(sdp))) => {
                if t == offer_lit() {
                    Ok(SignalMessageV::Sdp { kind: SdpKind::Offer, sdp })
                } else if t == answer_lit() {
                    Ok(SignalMessageV::Sdp { kind: SdpKind::Answer, sdp })
                } else {
                    Err(CodecError::MalformedSdp)
                }
            },
            _ => Err(CodecError::MalformedSdp),
        },
        _ => Err(CodecError::MalformedSdp),
    }
}

/// What an `ice` envelope's value must hold: an object with a `candidate`
/// string and a media line index that fits a `u32`.
pub open spec fn classify_ice(v: TopV) -> Result<SignalMessageV, CodecError> {
    match v {
        TopV::Obj(inner) => match (
            lookup_prim(inner, candidate_key()),
            lookup_prim(inner, mline_key()),
        ) {
            (Some(PrimV::S(candidate)), Some(PrimV::N(n))) => {
                if 0 <= n && n <= u32::MAX as int {
                    Ok(SignalMessageV::Ice { sdp_mline_index: n as u32, candidate })
                } else {
                    Err(CodecError::MalformedIce)
                }
            },
            _ => Err(CodecError::MalformedIce),
        },
        _ => Err(CodecError::MalformedIce),
    }
}

/// Which message a parsed envelope carries: an `sdp` member wins, then an
/// `ice` member; anything else is unknown.
pub open spec fn classify_envelope(ms: Seq<(Seq<char>, TopV)>) -> Result<
    SignalMessageV,
    CodecError,
> {
    match lookup_top(ms, sdp_key()) {
        Some(v) => classify_sdp(v),
        None => match lookup_top(ms, ice_key()) {
            Some(v) => classify_ice(v),
            None => Err(CodecError::UnknownEnvelope),
        },
    }
}

/// What each inbound payload decodes to. The bare tokens come first and
/// take precedence over envelope parsing; then a payload in the envelope
/// grammar is classified; everything else is unknown.
pub open spec fn decode_spec(s: Seq<char>) -> Result<SignalMessageV, CodecError> {
    if s == hello_lit() {
        Ok(SignalMessageV::Hello)
    } else if s == session_ok_lit() {
        Ok(SignalMessageV::SessionOk)
    } else if s.len() >= 5 && s.take(5) == error_prefix() {
        Ok(SignalMessageV::Error { text: s })
    } else {
        match spec_parse_envelope(s) {
            Some(ms) => classify_envelope(ms),
            None => Err(CodecError::UnknownEnvelope),
        }
    }
}

// ---------------------------------------------------------------------------
// decoding inverts encoding

/// Decoding inverts encoding for an offer: the encoded offer decodes to
/// the SDP message of kind `Offer` carrying the same SDP text.
pub proof fn lemma_round_trip_offer(sdp: Seq<char>)
    ensures
        decode_spec(encode_spec(OutboundMessageV::Offer { sdp })) == Ok::<
            SignalMessageV,
            CodecError,
        >(SignalMessageV::Sdp { kind: SdpKind::Offer, sdp }),
{
    let s = offer_env(sdp);
    assert(s[0] == '{');
    assert(s != hello_lit());
    assert(s != session_ok_lit());
    assert(!(s.len() >= 5 && s.take(5) == error_prefix())) by {
        if s.len() >= 5 {
            assert(s.take(5)[0] == '{');
        }
    }
    assert(key_plain_facts());
    lemma_parse_envelope_obj2(
        sdp_key(),
        type_key(),
        PrimV::S(offer_lit()),
        sdp_key(),
        PrimV::S(sdp),
    );
    let inner = seq![(type_key(), PrimV::S(offer_lit())), (sdp_key(), PrimV::S(sdp))];
    let ms = seq![(sdp_key(), TopV::Obj(inner))];
    assert(spec_parse_envelope(s) == Some(ms));
    assert(lookup_top(ms, sdp_key()) == Some(TopV::Obj(inner)));
    assert(lookup_prim(inner, type_key()) == Some(PrimV::S(offer_lit())));
    assert(inner.skip(1)[0] == (sdp_key(), PrimV::S(sdp)));
    assert(type_key() != sdp_key());
    assert(lookup_prim(inner, sdp_key()) == Some(PrimV::S(sdp))) by {
        assert(lookup_prim(inner.skip(1), sdp_key()) == Some(PrimV::S(sdp)));
    }
}

/// Decoding inverts encoding for an ICE candidate: the encoded candidate
/// decodes to the ICE message with the same index and text.
pub proof fn lemma_round_trip_ice(sdp_mline_index: u32, candidate: Seq<char>)
    ensures
        decode_spec(encode_spec(OutboundMessageV::IceCandidate { sdp_mline_index, candidate }))
            == Ok::<SignalMessageV, CodecError>(
            SignalMessageV::Ice { sdp_mline_index, candidate },
        ),
{
    let s = ice_env(sdp_mline_index, candidate);
    assert(s[0] == '{');
    assert(s != hello_lit());
    assert(s != session_ok_lit());
    assert(!(s.len() >= 5 && s.take(5) == error_prefix())) by {
        if s.len() >= 5 {
            assert(s.take(5)[0] == '{');
        }
    }
    assert(key_plain_facts());
    assert(prim_ok(PrimV::N(sdp_mline_index as int))) by {
        lemma_pow10_19_large();
    }
    lemma_parse_envelope_obj2(
        ice_key(),
        candidate_key(),
        PrimV::S(candidate),
        mline_key(),
        PrimV::N(sdp_mline_index as int),
    );
    let inner = seq![
        (candidate_key(), PrimV::S(candidate)),
        (mline_key(), PrimV::N(sdp_mline_index as int)),
    ];
    let ms = seq![(ice_key(), TopV::Obj(inner))];
    assert(spec_parse_envelope(s) == Some(ms));
    assert(ice_key() != sdp_key());
    assert(lookup_top(ms, sdp_key()) is None) by {
        assert(lookup_top(ms.skip(1), sdp_key()) is None);
    }
    assert(lookup_top(ms, ice_key()) == Some(TopV::Obj(inner)));
    assert(lookup_prim(inner, candidate_key()) == Some(PrimV::S(candidate)));
    assert(candidate_key() != mline_key());
    assert(inner.skip(1)[0] == (mline_key(), PrimV::N(sdp_mline_index as int)));
    assert(lookup_prim(inner, mline_key()) == Some(PrimV::N(sdp_mline_index as int))) by {
        assert(lookup_prim(inner.skip(1), mline_key()) == Some(
            PrimV::N(sdp_mline_index as int),
        ));
    }
    assert((sdp_mline_index as int) as u32 == sdp_mline_index);
}

/// Every fixed key of the vocabulary is written in plain characters.
pub open spec fn key_plain_facts() -> bool {
    &&& crate::envelope::key_ok(sdp_key())
    &&& crate::envelope::key_ok(ice_key())
    &&& crate::envelope::key_ok(type_key())
    &&& crate::envelope::key_ok(candidate_key())
    &&& crate::envelope::key_ok(mline_key())
    &&& crate::envelope::key_ok(offer_lit())
    &&& crate::envelope::key_ok(answer_lit())
}

/// Ten to the numeral-length bound exceeds every `u32`.
pub proof fn lemma_pow10_19_large()
    ensures
        pow10(max_numeral_digits()) > u32::MAX as int,
{
    reveal_with_fuel(pow10, 20);
}

// ---------------------------------------------------------------------------
// the executable codec

/// The decode result as the specification sees it.
pub open spec fn decode_view(r: Result<SignalMessage, CodecError>) -> Result<
    SignalMessageV,
    CodecError,
> {
    match r {
        Ok(m) => Ok(m@),
        Err(e) => Err(e),
    }
}

/// The characters of a payload, in order.
pub(crate) fn str_to_chars(s: &str) -> (v: Vec<char>)
    ensures
        v@ == s@,
{
    let n = s.unicode_len();
    let mut v: Vec<char> = Vec::new();
    let mut k: usize = 0;
    while k < n
        invariant
            n == s@.len(),
            k <= n,
            v@ == s@.take(k as int),
        decreases n - k,
    {
        let c = s.get_char(k);
        v.push(c);
        proof {
            assert(s@.take(k as int + 1) =~= s@.take(k as int).push(s@[k as int]));
        }
        k += 1;
    }
    proof {
        assert(s@.take(n as int) =~= s@);
    }
    v
}

/// Whether the payload is the bare `HELLO` token.
fn is_hello(v: &Vec<char>) -> (r: bool)
    ensures
        r == (v@ == hello_lit()),
{
    let r = v.len() == 5 && v[0] == 'H' && v[1] == 'E' && v[2] == 'L' && v[3] == 'L' && v[4]
        == 'O';
    proof {
        if r {
            assert(v@ =~= hello_lit());
        } else if v@ == hello_lit() {
            assert(v@.len() == 5 && v@[0] == 'H' && v@[1] == 'E' && v@[2] == 'L' && v@[3] == 'L'
                && v@[4] == 'O');
        }
    }
    r
}

/// Whether the payload is the bare `SESSION_OK` token.
fn is_session_ok(v: &Vec<char>) -> (r: bool)
    ensures
        r == (v@ == session_ok_lit()),
{
    let r = v.len() == 10 && v[0] == 'S' && v[1] == 'E' && v[2] == 'S' && v[3] == 'S' && v[4]
        == 'I' && v[5] == 'O' && v[6] == 'N' && v[7] == '_' && v[8] == 'O' && v[9] == 'K';
    proof {
        if r {
            assert(v@ =~= session_ok_lit());
        } else if v@ == session_ok_lit() {
            assert(v@.len() == 10 && v@[0] == 'S' && v@[1] == 'E' && v@[2] == 'S' && v@[3] == 'S'
                && v@[4] == 'I' && v@[5] == 'O' && v@[6] == 'N' && v@[7] == '_' && v@[8] == 'O'
                && v@[9] == 'K');
        }
    }
    r
}

/// Whether the payload begins with `ERROR`.
fn has_error_prefix(v: &Vec<char>) -> (r: bool)
    ensures
        r == (v@.len() >= 5 && v@.take(5) == error_prefix()),
{
    let r = v.len() >= 5 && v[0] == 'E' && v[1] == 'R' && v[2] == 'R' && v[3] == 'O' && v[4]
        == 'R';
    proof {
        if r {
            assert(v@.take(5) =~= error_prefix());
        } else if v@.len() >= 5 && v@.take(5) == error_prefix() {
            assert(v@[0] == v@.take(5)[0] && v@[1] == v@.take(5)[1] && v@[2] == v@.take(5)[2]
                && v@[3] == v@.take(5)[3] && v@[4] == v@.take(5)[4]);
        }
    }
    r
}

/// First value under `key` among the parsed top-level members.
fn lookup_top_at<'a>(ms: &'a Vec<(String, TopValue)>, key: &String) -> (r: Option<&'a TopValue>)
    ensures
        match r {
            Some(tv) => lookup_top(top_members_view(ms@), key@) == Some(tv@),
            None => lookup_top(top_members_view(ms@), key@) is None,
        },
{
    let ghost full = top_members_view(ms@);
    proof {
        assert(full.skip(0) =~= full);
    }
    let mut idx: usize = 0;
    while idx < ms.len()
        invariant
            idx <= ms@.len(),
            full == top_members_view(ms@),
            lookup_top(full, key@) == lookup_top(full.skip(idx as int), key@),
        decreases ms@.len() - idx,
    {
        let pair = &ms[idx];
        proof {
            assert(full.skip(idx as int)[0] == full[idx as int]);
            assert(full[idx as int] == (pair.0@, pair.1@));
        }
        if pair.0 == *key {
            return Some(&pair.1);
        }
        proof {
            assert(full.skip(idx as int).skip(1) =~= full.skip(idx as int + 1));
        }
        idx += 1;
    }
    proof {
        assert(full.skip(idx as int).len() == 0);
    }
    None
}

/// First value under `key` among the parsed inner members.
fn lookup_prim_at<'a>(ms: &'a Vec<(String, PrimValue)>, key: &String) -> (r: Option<&'a PrimValue>)
    ensures
        match r {
            Some(p) => lookup_prim(crate::envelope::inner_members_view(ms@), key@) == Some(p@),
            None => lookup_prim(crate::envelope::inner_members_view(ms@), key@) is None,
        },
{
    let ghost full = crate::envelope::inner_members_view(ms@);
    proof {
        assert(full.skip(0) =~= full);
    }
    let mut idx: usize = 0;
    while idx < ms.len()
        invariant
            idx <= ms@.len(),
            full == crate::envelope::inner_members_view(ms@),
            lookup_prim(full, key@) == lookup_prim(full.skip(idx as int), key@),
        decreases ms@.len() - idx,
    {
        let pair = &ms[idx];
        proof {
            assert(full.skip(idx as int)[0] == full[idx as int]);
            assert(full[idx as int] == (pair.0@, pair.1@));
        }
        if pair.0 == *key {
            return Some(&pair.1);
        }
        proof {
            assert(full.skip(idx as int).skip(1) =~= full.skip(idx as int + 1));
        }
        idx += 1;
    }
    proof {
        assert(full.skip(idx as int).len() == 0);
    }
    None
}

/// The `sdp` key as a `String`.
fn key_sdp() -> (s: String)
    ensures
        s@ == sdp_key(),
{
    let s = "sdp".to_owned();
    proof {
        reveal_strlit("sdp");
        assert(s@ =~= sdp_key());
    }
    s
}

/// The `ice` key as a `String`.
fn key_ice() -> (s: String)
    ensures
        s@ == ice_key(),
{
    let s = "ice".to_owned();
    proof {
        reveal_strlit("ice");
        assert(s@ =~= ice_key());
    }
    s
}

/// The `type` key as a `String`.
fn key_type() -> (s: String)
    ensures
        s@ == type_key(),
{
    let s = "type".to_owned();
    proof {
        reveal_strlit("type");
        assert(s@ =~= type_key());
    }
    s
}

/// The `candidate` key as a `String`.
fn key_candidate() -> (s: String)
    ensures
        s@ == candidate_key(),
{
    let s = "candidate".to_owned();
    proof {
        reveal_strlit("candidate");
        assert(s@ =~= candidate_key());
    }
    s
}

/// The `sdpMLineIndex` key as a `String`.
fn key_mline() -> (s: String)
    ensures
        s@ == mline_key(),
{
    let s = "sdpMLineIndex".to_owned();
    proof {
        reveal_strlit("sdpMLineIndex");
        assert(s@ =~= mline_key());
    }
    s
}

/// The `offer` kind word as a `String`.
fn word_offer() -> (s: String)
    ensures
        s@ == offer_lit(),
{
    let s = "offer".to_owned();
    proof {
        reveal_strlit("offer");
        assert(s@ =~= offer_lit());
    }
    s
}

/// The `answer` kind word as a `String`.
fn word_answer() -> (s: String)
    ensures
        s@ == answer_lit(),
{
    let s = "answer".to_owned();
    proof {
        reveal_strlit("answer");
        assert(s@ =~= answer_lit());
    }
    s
}

/// Classify a parsed `sdp` envelope value, as [`classify_sdp`] does.
fn classify_sdp_value(v: &TopValue) -> (r: Result<SignalMessage, CodecError>)
    ensures
        decode_view(r) == classify_sdp(v@),
{
    match v {
        TopValue::Obj(inner) => {
            let tkey = key_type();
            let skey = key_sdp();
            let tval = lookup_prim_at(inner, &tkey);
            let sval = lookup_prim_at(inner, &skey);
            match (tval, sval) {
                (Some(PrimValue::S(t)), Some(PrimValue::S(sdp))) => {
                    let offer = word_offer();
                    let answer = word_answer();
                    if *t == offer {
                        Ok(SignalMessage::Sdp { kind: SdpKind::Offer, sdp: sdp.clone() })
                    } else if *t == answer {
                        Ok(SignalMessage::Sdp { kind: SdpKind::Answer, sdp: sdp.clone() })
                    } else {
                        Err(CodecError::MalformedSdp)
                    }
                },
                _ => Err(CodecError::MalformedSdp),
            }
        },
        _ => Err(CodecError::MalformedSdp),
    }
}

/// Classify a parsed `ice` envelope value, as [`classify_ice`] does.
fn classify_ice_value(v: &TopValue) -> (r: Result<SignalMessage, CodecError>)
    ensures
        decode_view(r) == classify_ice(v@),
{
    match v {
        TopValue::Obj(inner) => {
            let ckey = key_candidate();
            let mkey = key_mline();
            let cval = lookup_prim_at(inner, &ckey);
            let mval = lookup_prim_at(inner, &mkey);
            match (cval, mval) {
                (Some(PrimValue::S(candidate)), Some(PrimValue::N(n))) => {
                    if *n <= u32::MAX as u64 {
                        Ok(SignalMessage::Ice {
                            sdp_mline_index: *n as u32,
                            candidate: candidate.clone(),
                        })
                    } else {
                        Err(CodecError::MalformedIce)
                    }
                },
                _ => Err(CodecError::MalformedIce),
            }
        },
        _ => Err(CodecError::MalformedIce),
    }
}

/// Decode an inbound payload, exactly as [`decode_spec`] reads it: the
/// bare tokens first, then the envelope grammar, everything else unknown.
pub fn decode(raw: &str) -> (r: Result<SignalMessage, CodecError>)
    ensures
        decode_view(r) == decode_spec(raw@),
{
    let v = str_to_chars(raw);
    if is_hello(&v) {
        return Ok(SignalMessage::Hello);
    }
    if is_session_ok(&v) {
        return Ok(SignalMessage::SessionOk);
    }
    if has_error_prefix(&v) {
        return Ok(SignalMessage::Error { text: raw.to_owned() });
    }
    match parse_envelope(&v) {
        None => Err(CodecError::UnknownEnvelope),
        Some(ms) => {
            let skey = key_sdp();
            match lookup_top_at(&ms, &skey) {
                Some(val) => classify_sdp_value(val),
                None => {
                    let ikey = key_ice();
                    match lookup_top_at(&ms, &ikey) {
                        Some(val) => classify_ice_value(val),
                        None => Err(CodecError::UnknownEnvelope),
                    }
                },
            }
        },
    }
}

// ---------------------------------------------------------------------------
// the executable encoder

/// The character for a value below sixteen, as [`hex_char`] names it.
fn hex_char_of(d: u32) -> (c: char)
    requires
        d < 16,
    ensures
        c == hex_char(d as int),
{
    let v = if d < 10 {
        48 + d
    } else {
        87 + d
    };
    assert(is_scalar_value(v as int));
    match char_from_u32(v) {
        Some(c) => {
            proof {
                crate::jsontext::lemma_char_injective(c, hex_char(d as int));
            }
            c
        },
        None => vstd::pervasive::unreached(),
    }
}

/// The digit character for a value below ten.
fn digit_char_of(d: u32) -> (c: char)
    requires
        d < 10,
    ensures
        c == crate::jsontext::digit_char(d as int),
{
    assert(is_scalar_value((48 + d) as int));
    match char_from_u32(48 + d) {
        Some(c) => {
            proof {
                crate::jsontext::lemma_char_injective(c, crate::jsontext::digit_char(d as int));
            }
            c
        },
        None => vstd::pervasive::unreached(),
    }
}

/// Append the decimal numeral of `n`.
fn push_u32_dec(out: &mut String, n: u32)
    ensures
        final(out)@ == old(out)@ + dec_str(n as int),
    decreases n,
{
    if n >= 10 {
        push_u32_dec(out, n / 10);
        let d = digit_char_of(n % 10);
        push_char(out, d);
        proof {
            assert(dec_str(n as int) == dec_str(n as int / 10) + seq![
                crate::jsontext::digit_char(n as int % 10),
            ]);
            assert(final(out)@ =~= old(out)@ + dec_str(n as int));
        }
    } else {
        let d = digit_char_of(n);
        push_char(out, d);
        proof {
            assert(final(out)@ =~= old(out)@ + dec_str(n as int));
        }
    }
}

/// Append the escape expansion of one character.
fn push_escape_char(out: &mut String, c: char)
    ensures
        final(out)@ == old(out)@ + escape_char(c),
{
    if c == '"' {
        push_char(out, '\\');
        push_char(out, '"');
        assert(final(out)@ =~= old(out)@ + escape_char(c));
    } else if c == '\\' {
        push_char(out, '\\');
        push_char(out, '\\');
        assert(final(out)@ =~= old(out)@ + escape_char(c));
    } else if c == '\u{8}' {
        push_char(out, '\\');
        push_char(out, 'b');
        assert(final(out)@ =~= old(out)@ + escape_char(c));
    } else if c == '\u{c}' {
        push_char(out, '\\');
        push_char(out, 'f');
        assert(final(out)@ =~= old(out)@ + escape_char(c));
    } else if c == '\n' {
        push_char(out, '\\');
        push_char(out, 'n');
        assert(final(out)@ =~= old(out)@ + escape_char(c));
    } else if c == '\r' {
        push_char(out, '\\');
        push_char(out, 'r');
        assert(final(out)@ =~= old(out)@ + escape_char(c));
    } else if c == '\t' {
        push_char(out, '\\');
        push_char(out, 't');
        assert(final(out)@ =~= old(out)@ + escape_char(c));
    } else if (c as u32) < 0x20 {
        proof {
            lemma_char_bounds(c);
        }
        push_char(out, '\\');
        push_char(out, 'u');
        push_char(out, '0');
        push_char(out, '0');
        let hi = hex_char_of((c as u32) / 16);
        push_char(out, hi);
        let lo = hex_char_of((c as u32) % 16);
        push_char(out, lo);
        proof {
            assert((c as u32) as int / 16 == c as int / 16);
            assert((c as u32) as int % 16 == c as int % 16);
            assert(final(out)@ =~= old(out)@ + escape_char(c));
        }
    } else {
        proof {
            lemma_char_bounds(c);
        }
        push_char(out, c);
        assert(final(out)@ =~= old(out)@ + escape_char(c));
    }
}

/// Append the escaped body of `text`.
#[verifier::loop_isolation(false)]
fn push_escaped(out: &mut String, text: &str)
    ensures
        final(out)@ == old(out)@ + escape_seq(text@),
{
    let v = str_to_chars(text);
    let n = v.len();
    let mut k: usize = 0;
    while k < n
        invariant
            k <= n,
            out@ == old(out)@ + escape_seq(v@.take(k as int)),
        decreases n - k,
    {
        let c = v[k];
        push_escape_char(out, c);
        proof {
            lemma_escape_seq_snoc(v@, k as int);
        }
        k += 1;
    }
    proof {
        assert(v@.take(n as int) =~= v@);
    }
}

/// Escaping one more character extends the escaped body at its end.
proof fn lemma_escape_seq_snoc(s: Seq<char>, k: int)
    requires
        0 <= k < s.len(),
    ensures
        escape_seq(s.take(k + 1)) == escape_seq(s.take(k)) + escape_char(s[k]),
    decreases k,
{
    if k == 0 {
        assert(s.take(0).len() == 0);
        assert(escape_seq(s.take(0)) =~= Seq::<char>::empty());
        assert(s.take(1)[0] == s[0]);
        assert(s.take(1).skip(1) =~= Seq::<char>::empty());
        assert(escape_seq(s.take(1)) == escape_char(s[0]) + escape_seq(s.take(1).skip(1)));
        assert(escape_seq(s.take(1)) =~= Seq::<char>::empty() + escape_char(s[0]));
        assert(Seq::<char>::empty() + escape_char(s[0]) =~= escape_char(s[0]));
        assert(escape_char(s[0]) =~= escape_seq(s.take(0)) + escape_char(s[0]));
    } else {
        lemma_escape_seq_snoc(s.skip(1), k - 1);
        assert(s.take(k + 1)[0] == s[0]);
        assert(s.take(k)[0] == s[0]);
        assert(s.take(k + 1).skip(1) =~= s.skip(1).take(k));
        assert(s.take(k).skip(1) =~= s.skip(1).take(k - 1));
        assert(s.skip(1)[k - 1] == s[k]);
        assert(escape_seq(s.take(k + 1)) == escape_char(s[0]) + escape_seq(s.skip(1).take(k)));
        assert(escape_seq(s.take(k)) == escape_char(s[0]) + escape_seq(s.skip(1).take(k - 1)));
        assert(escape_char(s[0]) + (escape_seq(s.skip(1).take(k - 1)) + escape_char(s[k])) =~= (
        escape_char(s[0]) + escape_seq(s.skip(1).take(k - 1))) + escape_char(s[k]));
    }
}

/// The fixed head of the offer envelope, up to and over the opening quote
/// of the SDP text.
pub open spec fn offer_prefix() -> Seq<char> {
    seq![
        '{', '"', 's', 'd', 'p', '"', ':', '{', '"', 't', 'y', 'p', 'e', '"', ':', '"', 'o', 'f',
        'f', 'e', 'r', '"', ',', '"', 's', 'd', 'p', '"', ':', '"',
    ]
}

/// The fixed tail of the offer envelope.
pub open spec fn offer_suffix() -> Seq<char> {
    seq!['"', '}', '}']
}

/// The fixed head of the candidate envelope, up to and over the opening
/// quote of the candidate text.
pub open spec fn ice_prefix() -> Seq<char> {
    seq![
        '{', '"', 'i', 'c', 'e', '"', ':', '{', '"', 'c', 'a', 'n', 'd', 'i', 'd', 'a', 't', 'e',
        '"', ':', '"',
    ]
}

/// The fixed middle of the candidate envelope, between the candidate text
/// and the media line index.
pub open spec fn ice_middle() -> Seq<char> {
    seq!['"', ',', '"', 's', 'd', 'p', 'M', 'L', 'i', 'n', 'e', 'I', 'n', 'd', 'e', 'x', '"', ':']
}

/// The fixed tail of the candidate envelope.
pub open spec fn ice_suffix() -> Seq<char> {
    seq!['}', '}']
}

/// The offer envelope is its fixed head, the escaped SDP text, and its
/// fixed tail.
pub proof fn lemma_offer_env_flat(sdp: Seq<char>)
    ensures
        offer_env(sdp) == offer_prefix() + escape_seq(sdp) + offer_suffix(),
{
    assert(key_plain_facts());
    lemma_escape_plain(sdp_key());
    lemma_escape_plain(type_key());
    lemma_escape_plain(offer_lit());
    assert(offer_env(sdp) =~= offer_prefix() + escape_seq(sdp) + offer_suffix());
}

/// The candidate envelope is its fixed head, the escaped candidate text,
/// its fixed middle, the index numeral, and its fixed tail.
pub proof fn lemma_ice_env_flat(sdp_mline_index: u32, candidate: Seq<char>)
    ensures
        ice_env(sdp_mline_index, candidate) == ice_prefix() + escape_seq(candidate) + ice_middle()
            + dec_str(sdp_mline_index as int) + ice_suffix(),
{
    assert(key_plain_facts());
    lemma_escape_plain(ice_key());
    lemma_escape_plain(candidate_key());
    lemma_escape_plain(mline_key());
    assert(ice_env(sdp_mline_index, candidate) =~= ice_prefix() + escape_seq(candidate)
        + ice_middle() + dec_str(sdp_mline_index as int) + ice_suffix());
}

/// Encode an outbound message into its exact wire text, as
/// [`encode_spec`] gives it.
pub fn encode(msg: &OutboundMessage) -> (r: String)
    ensures
        r@ == encode_spec(msg@),
{
    match msg {
        OutboundMessage::Register { id } => {
            let mut out = "HELLO ".to_owned();
            proof {
                reveal_strlit("HELLO ");
                assert(out@ =~= hello_sp());
            }
            push_u32_dec(&mut out, *id);
            out
        },
        OutboundMessage::JoinSession { peer_id } => {
            let mut out = "SESSION ".to_owned();
            proof {
                reveal_strlit("SESSION ");
                assert(out@ =~= session_sp());
            }
            out.append(peer_id.as_str());
            out
        },
        OutboundMessage::Offer { sdp } => {
            let mut out = "{\"sdp\":{\"type\":\"offer\",\"sdp\":\"".to_owned();
            proof {
                reveal_strlit("{\"sdp\":{\"type\":\"offer\",\"sdp\":\"");
                assert(out@ =~= offer_prefix());
            }
            push_escaped(&mut out, sdp.as_str());
            out.append("\"}}");
            proof {
                reveal_strlit("\"}}");
                assert("\"}}"@ =~= offer_suffix());
                lemma_offer_env_flat(sdp@);
                assert(out@ =~= offer_prefix() + escape_seq(sdp@) + offer_suffix());
            }
            out
        },
        OutboundMessage::IceCandidate { sdp_mline_index, candidate } => {
            let mut out = "{\"ice\":{\"candidate\":\"".to_owned();
            proof {
                reveal_strlit("{\"ice\":{\"candidate\":\"");
                assert(out@ =~= ice_prefix());
            }
            push_escaped(&mut out, candidate.as_str());
            out.append("\",\"sdpMLineIndex\":");
            proof {
                reveal_strlit("\",\"sdpMLineIndex\":");
                assert("\",\"sdpMLineIndex\":"@ =~= ice_middle());
            }
            push_u32_dec(&mut out, *sdp_mline_index);
            out.append("}}");
            proof {
                reveal_strlit("}}");
                assert("}}"@ =~= ice_suffix());
                lemma_ice_env_flat(*sdp_mline_index, candidate@);
                assert(out@ =~= ice_prefix() + escape_seq(candidate@) + ice_middle() + dec_str(
                    *sdp_mline_index as int,
                ) + ice_suffix());
            }
            out
        },
    }
}

} // verus!
