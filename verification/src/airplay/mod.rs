//! AirPlay: request framing, pairing, session rules and discovery.

pub mod discovery;
pub mod features;
pub mod handler;
pub mod pin_pair;
pub mod raw_pair;
pub mod rtsp;
pub mod session;
pub mod tlv;
