//! What can go wrong.

use vstd::prelude::*;

use crate::media::Codec;

verus! {

/// Why an operation of the library was refused or failed.
#[derive(Debug, PartialEq, Eq)]
pub enum FerricastError {
    Connection(String),
    Discovery(String),
    Protocol(String),
    Rtsp(String),
    Tlv(String),
    Streaming(String),
    Capture(String),
    Timeout(String),
    Receiver(String),
    Encoder(String),
    NoActiveSession,
    SessionAlreadyActive(String),
    UnsupportedCodec { codec: Codec, protocol: String },
}

/// Why sources cannot be listed or shown.
#[derive(Debug, PartialEq, Eq)]
pub enum SourceError {
    Backend(String),
    NotFound(String),
    Disconnected(String),
    Unsupported,
}

impl SourceError {
    /// Whether this is the back end's error that says `text`.
    pub open spec fn is_backend(self, text: Seq<char>) -> bool {
        self matches SourceError::Backend(m) && m@ == text
    }
}

impl FerricastError {
    /// Whether this is the protocol error that says `text`.
    pub open spec fn is_protocol(self, text: Seq<char>) -> bool {
        self matches FerricastError::Protocol(m) && m@ == text
    }

    /// Whether this is the RTSP error that says `text`.
    pub open spec fn is_rtsp(self, text: Seq<char>) -> bool {
        self matches FerricastError::Rtsp(m) && m@ == text
    }

    /// Whether this is the TLV error that says `text`.
    pub open spec fn is_tlv(self, text: Seq<char>) -> bool {
        self matches FerricastError::Tlv(m) && m@ == text
    }

    /// Whether this is the streaming error that says `text`.
    pub open spec fn is_streaming(self, text: Seq<char>) -> bool {
        self matches FerricastError::Streaming(m) && m@ == text
    }

    /// Whether this is the connection error that says `text`.
    pub open spec fn is_connection(self, text: Seq<char>) -> bool {
        self matches FerricastError::Connection(m) && m@ == text
    }

    /// Whether this is the receiver's error that says `text`.
    pub open spec fn is_receiver(self, text: Seq<char>) -> bool {
        self matches FerricastError::Receiver(m) && m@ == text
    }

    /// Whether this is the encoder's error that says `text`.
    pub open spec fn is_encoder(self, text: Seq<char>) -> bool {
        self matches FerricastError::Encoder(m) && m@ == text
    }

    /// Whether this is the capture error that says `text`.
    pub open spec fn is_capture(self, text: Seq<char>) -> bool {
        self matches FerricastError::Capture(m) && m@ == text
    }

    /// Whether this is the error of a second session on the device `name`.
    pub open spec fn is_already_active(self, name: Seq<char>) -> bool {
        self matches FerricastError::SessionAlreadyActive(m) && m@ == name
    }

    /// Whether this is the refusal of `codec` by `protocol`.
    pub open spec fn is_unsupported(self, refused: Codec, by: Seq<char>) -> bool {
        self matches FerricastError::UnsupportedCodec { codec, protocol } && codec == refused
            && protocol@ == by
    }
}

} // verus!
