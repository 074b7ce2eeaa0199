//! Signalling and negotiation state machine for establishing a peer media
//! session through a third-party relay: registration, session pairing, SDP
//! offer/answer exchange and ICE candidate exchange.
//!
//! The library is the control plane only: it decides, from the current
//! session phase and an incoming event, which phase comes next and which
//! outbound messages and media-engine calls must be made. Transport and the
//! media engine itself live outside and act on the returned actions.

pub mod codec;
pub mod dispatch;
pub mod envelope;
pub mod ice;
pub mod jsontext;
pub mod msg;
pub mod negotiate;
pub mod phase;
pub mod session;
