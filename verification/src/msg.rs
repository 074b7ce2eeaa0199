//! The wire vocabulary as typed events: inbound signal messages, outbound
//! messages, and the decode error taxonomy.

use vstd::prelude::*;

verus! {

/// Which of the two SDP documents an `Sdp` envelope carries.
#[derive(Clone, Copy, Debug, PartialEq, Eq, Structural)]
pub enum SdpKind {
    Offer,
    Answer,
}

/// An inbound signalling message, as decoded from the wire.
#[derive(Clone, Debug, PartialEq, Eq)]
pub enum SignalMessage {
    /// The bare token `HELLO`: registration confirmed.
    Hello,
    /// The bare token `SESSION_OK`: session pairing confirmed.
    SessionOk,
    /// Any message beginning with `ERROR`; `text` is the whole message.
    Error { text: String },
    /// An SDP envelope.
    Sdp { kind: SdpKind, sdp: String },
    /// An ICE candidate envelope.
    Ice { sdp_mline_index: u32, candidate: String },
}

/// The mathematical content of a [`SignalMessage`].
pub ghost enum SignalMessageV {
    Hello,
    SessionOk,
    Error { text: Seq<char> },
    Sdp { kind: SdpKind, sdp: Seq<char> },
    Ice { sdp_mline_index: u32, candidate: Seq<char> },
}

impl View for SignalMessage {
    type V = SignalMessageV;

    open spec fn view(&self) -> SignalMessageV {
        match self {
            SignalMessage::Hello => SignalMessageV::Hello,
            SignalMessage::SessionOk => SignalMessageV::SessionOk,
            SignalMessage::Error { text } => SignalMessageV::Error { text: text@ },
            SignalMessage::Sdp { kind, sdp } => SignalMessageV::Sdp { kind: *kind, sdp: sdp@ },
            SignalMessage::Ice { sdp_mline_index, candidate } => SignalMessageV::Ice {
                sdp_mline_index: *sdp_mline_index,
                candidate: candidate@,
            },
        }
    }
}

/// An outbound message to be encoded and sent over the signalling channel.
#[derive(Clone, Debug, PartialEq, Eq)]
pub enum OutboundMessage {
    /// `HELLO <id>`: register under a fresh client id.
    Register { id: u32 },
    /// `SESSION <peer_id>`: ask the relay to pair with the peer.
    JoinSession { peer_id: String },
    /// The SDP offer envelope.
    Offer { sdp: String },
    /// The ICE candidate envelope.
    IceCandidate { sdp_mline_index: u32, candidate: String },
}

/// The mathematical content of an [`OutboundMessage`].
pub ghost enum OutboundMessageV {
    Register { id: u32 },
    JoinSession { peer_id: Seq<char> },
    Offer { sdp: Seq<char> },
    IceCandidate { sdp_mline_index: u32, candidate: Seq<char> },
}

impl View for OutboundMessage {
    type V = OutboundMessageV;

    open spec fn view(&self) -> OutboundMessageV {
        match self {
            OutboundMessage::Register { id } => OutboundMessageV::Register { id: *id },
            OutboundMessage::JoinSession { peer_id } => OutboundMessageV::JoinSession {
                peer_id: peer_id@,
            },
            OutboundMessage::Offer { sdp } => OutboundMessageV::Offer { sdp: sdp@ },
            OutboundMessage::IceCandidate { sdp_mline_index, candidate } => {
                OutboundMessageV::IceCandidate {
                    sdp_mline_index: *sdp_mline_index,
                    candidate: candidate@,
                }
            },
        }
    }
}

/// What the embedder must do next: send a message over the signalling
/// channel, drive the media engine, or close the channel. The library
/// decides; the embedder performs.
#[derive(Clone, Debug, PartialEq, Eq)]
pub enum Action {
    /// Encode this message and send it over the signalling channel.
    Send(OutboundMessage),
    /// Build the media pipeline and hook its notifications up.
    StartEngine,
    /// Ask the media engine to create an SDP offer.
    CreateOffer,
    /// Hand the engine its local SDP description.
    SetLocalDescription { sdp: String },
    /// Hand the engine the remote SDP description.
    SetRemoteDescription { sdp: String },
    /// Hand the engine a remote ICE candidate.
    AddIceCandidate { sdp_mline_index: u32, candidate: String },
    /// Close the signalling channel.
    CloseChannel,
}

/// The mathematical content of an [`Action`].
pub ghost enum ActionV {
    Send(OutboundMessageV),
    StartEngine,
    CreateOffer,
    SetLocalDescription { sdp: Seq<char> },
    SetRemoteDescription { sdp: Seq<char> },
    AddIceCandidate { sdp_mline_index: u32, candidate: Seq<char> },
    CloseChannel,
}

impl View for Action {
    type V = ActionV;

    open spec fn view(&self) -> ActionV {
        match self {
            Action::Send(m) => ActionV::Send(m@),
            Action::StartEngine => ActionV::StartEngine,
            Action::CreateOffer => ActionV::CreateOffer,
            Action::SetLocalDescription { sdp } => ActionV::SetLocalDescription { sdp: sdp@ },
            Action::SetRemoteDescription { sdp } => ActionV::SetRemoteDescription { sdp: sdp@ },
            Action::AddIceCandidate { sdp_mline_index, candidate } => ActionV::AddIceCandidate {
                sdp_mline_index: *sdp_mline_index,
                candidate: candidate@,
            },
            Action::CloseChannel => ActionV::CloseChannel,
        }
    }
}

/// The actions of a list, as the specification sees them.
pub open spec fn actions_view(v: Seq<Action>) -> Seq<ActionV> {
    v.map_values(|a: Action| a@)
}

/// Why an inbound payload could not be decoded.
#[derive(Clone, Copy, Debug, PartialEq, Eq, Structural)]
pub enum CodecError {
    /// An envelope with an `sdp` key whose content is not a well-formed
    /// offer or answer.
    MalformedSdp,
    /// An envelope with an `ice` key whose content is not a well-formed
    /// candidate.
    MalformedIce,
    /// A payload that is neither a known token nor a recognised envelope.
    UnknownEnvelope,
}

} // verus!
