//! The namespaces of the control channel.

use vstd::prelude::*;

verus! {

pub const CONNECTION: &'static str = "urn:x-cast:com.google.cast.tp.connection";

pub const HEARTBEAT: &'static str = "urn:x-cast:com.google.cast.tp.heartbeat";

pub const RECEIVER: &'static str = "urn:x-cast:com.google.cast.receiver";

pub const MEDIA: &'static str = "urn:x-cast:com.google.cast.media";

pub const WEBRTC: &'static str = "urn:x-cast:com.google.cast.webrtc";

} // verus!
