//! Chromecast: the wire format of the control channel, casting sessions,
//! mirroring over RTP, discovery, and the receiver's side of the protocol.

pub mod castv2;
pub mod discovery;
pub mod h264_params;
pub mod handler;
pub mod json;
pub mod launch;
pub mod media_error;
pub mod messages;
pub mod mirror_stream;
pub mod mirroring;
pub mod namespace;
pub mod payload;
pub mod proto;
pub mod receiver;
pub mod rtp;
pub mod self_filter;
pub mod session;
pub mod wire;
