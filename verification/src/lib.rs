//! Screen casting to AirPlay and Chromecast receivers: wire formats, pairing,
//! session rules, receiver emulation and the bookkeeping of the capture
//! back ends, each with a proved contract.

pub mod airplay;
pub mod capture;
pub mod chromecast;
pub mod crypto;
pub mod device;
pub mod error;
pub mod media;
pub mod octets;
pub mod text;
pub mod text_map;
