//! The framing of the control channel on top of a byte stream.

use bytes::BytesMut;
use vstd::prelude::*;
use vstd::string::*;

use crate::chromecast::castv2::{
    buffer_len, buffered, encoded, frame_read, framed, CastMessage, CastV2Error, Frame,
    MAX_MESSAGE_SIZE,
};
use crate::error::FerricastError;
use crate::text::{decimal, join2};

verus! {

/// Which end of the channel reports an error.
#[derive(Clone, Copy, Debug, PartialEq, Eq, Structural)]
pub enum Side {
    /// The sender, who speaks of the protocol.
    Sender,
    /// The receiver, who speaks of itself.
    Receiver,
}

impl Side {
    /// Whether this is how the side reports the words.
    pub open spec fn reports(self, e: FerricastError, text: Seq<char>) -> bool {
        match self {
            Side::Sender => e.is_protocol(text),
            Side::Receiver => e.is_receiver(text),
        }
    }

    /// Whether the side reports the error of a message behind the words.
    pub open spec fn reports_cast(
        self,
        e: FerricastError,
        head: Seq<char>,
        inner: CastV2Error,
    ) -> bool {
        exists|text: Seq<char>| #[trigger] inner.says(text) && self.reports(e, head + text)
    }

    /// Whether this is how the side reports that reading failed with the words.
    pub open spec fn reports_read(self, e: FerricastError, text: Seq<char>) -> bool {
        match self {
            Side::Sender => e.is_connection(text),
            Side::Receiver => e.is_receiver(text),
        }
    }

    fn read_error(self, text: String) -> (e: FerricastError)
        ensures
            self.reports_read(e, text@),
    {
        match self {
            Side::Sender => FerricastError::Connection(text),
            Side::Receiver => FerricastError::Receiver(text),
        }
    }

    fn error(self, text: String) -> (e: FerricastError)
        ensures
            self.reports(e, text@),
    {
        match self {
            Side::Sender => FerricastError::Protocol(text),
            Side::Receiver => FerricastError::Receiver(text),
        }
    }
}

/// What to do after a look at the buffer.
#[derive(Debug)]
pub enum RecvStep {
    /// A message has arrived.
    Message(CastMessage),
    /// More bytes are needed.
    ReadMore,
}

/// The bytes to send for a message; one that is too large is refused.
pub fn send(side: Side, msg: &CastMessage) -> (out: Result<Vec<u8>, FerricastError>)
    ensures
        match out {
            Ok(bytes) => encoded(msg@).len() <= MAX_MESSAGE_SIZE && bytes@ == framed(msg@),
            Err(e) => encoded(msg@).len() > MAX_MESSAGE_SIZE && side.reports(
                e,
                "encode cast message: "@ + ("frame too large: "@ + decimal(encoded(msg@).len())
                    + " bytes (max "@ + decimal(MAX_MESSAGE_SIZE as nat) + ")"@),
            ),
        },
{
    match msg.encode_length_prefixed() {
        Ok(bytes) => Ok(bytes),
        Err(e) => {
            let inner: String = e.text();
            Err(side.error(join2("encode cast message: ", inner.as_str())))
        },
    }
}

/// Takes the next message off the buffer, if it is there. A message that is
/// too large or cannot be read is an error, and so is a buffer that holds more
/// than the largest message and no message.
pub fn recv(side: Side, buf: &mut BytesMut) -> (out: Result<RecvStep, FerricastError>)
    ensures
        match frame_read(buffered(*old(buf))) {
            Frame::Message(e, rest) => (out matches Ok(RecvStep::Message(m)) && m@ == e)
                && buffered(*final(buf)) == rest,
            Frame::Incomplete => buffered(*final(buf)) == buffered(*old(buf)) && if buffered(
                *old(buf),
            ).len() > MAX_MESSAGE_SIZE + 8 {
                out matches Err(e) && side.reports(
                    e,
                    "incoming cast frame exceeds MAX_MESSAGE_SIZE"@,
                )
            } else {
                out matches Ok(RecvStep::ReadMore)
            },
            Frame::TooLarge(n) => buffered(*final(buf)) == buffered(*old(buf)) && (out matches Err(
                e,
            ) && side.reports(
                e,
                "decode cast message: "@ + ("frame too large: "@ + decimal(n) + " bytes (max "@
                    + decimal(MAX_MESSAGE_SIZE as nat) + ")"@),
            )),
            Frame::Garbled(rest) => buffered(*final(buf)) == rest && (out matches Err(e) && exists|
                inner: CastV2Error,
            | #[trigger]
                side.reports_cast(e, "decode cast message: "@, inner) && inner is Decode),
        },
{
    match CastMessage::decode_length_prefixed(buf) {
        Ok(Some(m)) => Ok(RecvStep::Message(m)),
        Ok(None) => {
            if buffer_len(&*buf) > MAX_MESSAGE_SIZE + 8 {
                return Err(
                    side.error("incoming cast frame exceeds MAX_MESSAGE_SIZE".to_owned()),
                );
            }
            Ok(RecvStep::ReadMore)
        },
        Err(inner) => {
            let text: String = inner.text();
            let shown: String = join2("decode cast message: ", text.as_str());
            let e: FerricastError = side.error(shown);
            assert(side.reports_cast(e, "decode cast message: "@, inner));
            Err(e)
        },
    }
}

/// Takes the next message off the buffer where nothing more will arrive: none
/// where the buffer is empty. A part of a message that is left over is an
/// error, as are a message that is too large and one that cannot be read.
pub fn recv_at_end(side: Side, buf: &mut BytesMut) -> (out: Result<
    Option<CastMessage>,
    FerricastError,
>)
    ensures
        match frame_read(buffered(*old(buf))) {
            Frame::Message(e, rest) => (out matches Ok(Some(m)) && m@ == e) && buffered(*final(buf))
                == rest,
            Frame::Incomplete => buffered(*final(buf)) == buffered(*old(buf)) && if buffered(
                *old(buf),
            ).len() == 0 {
                out matches Ok(None)
            } else {
                out matches Err(e) && side.reports_read(
                    e,
                    "read: connection closed within a message"@,
                )
            },
            Frame::TooLarge(n) => buffered(*final(buf)) == buffered(*old(buf)) && (out matches Err(
                e,
            ) && side.reports(
                e,
                "decode cast message: "@ + ("frame too large: "@ + decimal(n) + " bytes (max "@
                    + decimal(MAX_MESSAGE_SIZE as nat) + ")"@),
            )),
            Frame::Garbled(rest) => buffered(*final(buf)) == rest && (out matches Err(e) && exists|
                inner: CastV2Error,
            | #[trigger]
                side.reports_cast(e, "decode cast message: "@, inner) && inner is Decode),
        },
{
    proof {
        if frame_read(buffered(*buf)) is Incomplete {
            incomplete_buffers_are_small(buffered(*buf));
        }
    }
    match recv(side, buf) {
        Ok(RecvStep::Message(m)) => Ok(Some(m)),
        Ok(RecvStep::ReadMore) => {
            if buffer_len(&*buf) == 0 {
                Ok(None)
            } else {
                Err(side.read_error("read: connection closed within a message".to_owned()))
            }
        },
        Err(e) => Err(e),
    }
}

/// A buffer that waits for more bytes never grows past the limit that ends the
/// connection: a message that is still incomplete is shorter than that.
pub proof fn incomplete_buffers_are_small(buffer: Seq<u8>)
    requires
        frame_read(buffer) is Incomplete,
    ensures
        buffer.len() < MAX_MESSAGE_SIZE + 4,
{
}

/// Each end reports errors as its own: the sender as errors of the protocol and
/// of the connection, the receiver as errors of the receiver.
pub proof fn each_end_reports_its_own_errors(e: FerricastError, text: Seq<char>)
    ensures
        Side::Sender.reports(e, text) <==> e.is_protocol(text),
        Side::Sender.reports_read(e, text) <==> e.is_connection(text),
        Side::Receiver.reports(e, text) <==> e.is_receiver(text),
        Side::Receiver.reports_read(e, text) <==> e.is_receiver(text),
{
}

} // verus!
