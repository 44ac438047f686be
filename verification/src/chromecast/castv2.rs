//! Messages of the control channel: an envelope of protocol buffer fields
//! around a JSON payload, with the length in four bytes in front.

use bytes::BytesMut;
use vstd::prelude::*;
use vstd::string::*;
use vstd::utf8::{decode_utf8, encode_utf8, valid_utf8};

use crate::chromecast::json::text_of_option;
use crate::chromecast::payload::GenericPayload;
use crate::chromecast::proto::{
    bytes_field, bytes_read, bytes_round_trip, field_key, key_read, key_round_trip,
    lemma_varint_read, low_signed, number_field, number_round_trip, pass_field, put_bytes,
    put_number, put_text, sign_extended, skip_len, take_bytes, take_key, take_number, take_text,
    varint, varint_read, varint_round_trip, WIRE_BYTES, WIRE_VARINT,
};
use crate::octets::{
    be_bytes, be_bytes_round_trip, be_value, lemma_be_bytes_len, lemma_be_value_bound,
    lemma_pow256_small, push_all, push_be, read_be,
};
use crate::text::{
    decimal, push_decimal,
};

verus! {

/// The largest message that is sent or taken.
pub const MAX_MESSAGE_SIZE: usize = 1024 * 1024;

/// The bytes of the length in front of a message.
pub const LENGTH_PREFIX_SIZE: usize = 4;

/// Why a message cannot be sent or read.
#[derive(Debug)]
pub enum CastV2Error {
    /// A buffer was too small for a message.
    Encode { required: usize, remaining: usize },
    Decode(prost::DecodeError),
    Json(String),
    Incomplete { needed: usize, have: usize },
    FrameTooLarge { size: usize, max: usize },
    Io(String),
}

/// The text of a `DecodeError` of prost. The text is a best effort of prost;
/// nothing is said of it.
#[verifier::external_body]
fn decode_error_text(e: &prost::DecodeError) -> (text: String)
{
    e.to_string()
}

impl CastV2Error {
    /// Whether `text` is what the error says: exactly that, except that after
    /// the words for bytes that are no message the reader's own words follow.
    pub open spec fn says(self, text: Seq<char>) -> bool {
        match self {
            CastV2Error::Encode { required, remaining } => text
                == "protobuf encode error: failed to encode Protobuf message; insufficient buffer capacity (required: "@
                + decimal(required as nat) + ", remaining: "@ + decimal(remaining as nat) + ")"@,
            CastV2Error::Decode(_) => {
                let head = "protobuf decode error: "@;
                text.len() >= head.len() && text.take(head.len() as int) == head
            },
            CastV2Error::Json(m) => text == "json error: "@ + m@,
            CastV2Error::Incomplete { needed, have } => text == "incomplete frame: need "@
                + decimal(needed as nat) + " bytes, have "@ + decimal(have as nat),
            CastV2Error::FrameTooLarge { size, max } => text == "frame too large: "@ + decimal(
                size as nat,
            ) + " bytes (max "@ + decimal(max as nat) + ")"@,
            CastV2Error::Io(m) => text == "I/O error: "@ + m@,
        }
    }

    /// What the error says.
    pub fn text(&self) -> (text: String)
        ensures
            self.says(text@),
    {
        match self {
            CastV2Error::Encode { required, remaining } => {
                let mut out: String =
                    "protobuf encode error: failed to encode Protobuf message; insufficient buffer capacity (required: ".to_owned();
                push_decimal(&mut out, *required as u64);
                out.append(", remaining: ");
                push_decimal(&mut out, *remaining as u64);
                out.append(")");
                out
            },
            CastV2Error::Decode(e) => {
                let mut out: String = "protobuf decode error: ".to_owned();
                let more: String = decode_error_text(e);
                out.append(more.as_str());
                assert(out@.take("protobuf decode error: "@.len() as int)
                    =~= "protobuf decode error: "@);
                out
            },
            CastV2Error::Json(m) => {
                let mut out: String = "json error: ".to_owned();
                out.append(m.as_str());
                out
            },
            CastV2Error::Incomplete { needed, have } => {
                let mut out: String = "incomplete frame: need ".to_owned();
                push_decimal(&mut out, *needed as u64);
                out.append(" bytes, have ");
                push_decimal(&mut out, *have as u64);
                out
            },
            CastV2Error::FrameTooLarge { size, max } => {
                let mut out: String = "frame too large: ".to_owned();
                push_decimal(&mut out, *size as u64);
                out.append(" bytes (max ");
                push_decimal(&mut out, *max as u64);
                out.append(")");
                out
            },
            CastV2Error::Io(m) => {
                let mut out: String = "I/O error: ".to_owned();
                out.append(m.as_str());
                out
            },
        }
    }
}

/// What kind of payload a message carries.
#[derive(Clone, Copy, Debug, PartialEq, Eq, Structural)]
pub enum PayloadType {
    String,
    Binary,
}

/// The version of the protocol; there is one.
#[derive(Clone, Copy, Debug, PartialEq, Eq, Structural)]
pub enum ProtocolVersion {
    Castv21_0,
}

impl PayloadType {
    /// The number on the wire.
    pub open spec fn number(self) -> i32 {
        match self {
            PayloadType::String => 0,
            PayloadType::Binary => 1,
        }
    }

    /// The number on the wire.
    pub fn as_number(self) -> (n: i32)
        ensures
            n == self.number(),
    {
        match self {
            PayloadType::String => 0,
            PayloadType::Binary => 1,
        }
    }
}

impl ProtocolVersion {
    /// The number on the wire.
    pub open spec fn number(self) -> i32 {
        0
    }

    /// The number on the wire.
    pub fn as_number(self) -> (n: i32)
        ensures
            n == self.number(),
    {
        0
    }
}

/// The envelope around every message.
#[derive(Debug, PartialEq, Eq)]
pub struct CastMessage {
    pub protocol_version: Option<i32>,
    pub source_id: String,
    pub destination_id: String,
    pub namespace: String,
    pub payload_type: Option<i32>,
    pub payload_utf8: Option<String>,
    pub payload_binary: Option<Vec<u8>>,
}

/// What an envelope says.
pub struct Envelope {
    pub protocol_version: Option<i32>,
    pub source_id: Seq<char>,
    pub destination_id: Seq<char>,
    pub namespace: Seq<char>,
    pub payload_type: Option<i32>,
    pub payload_utf8: Option<Seq<char>>,
    pub payload_binary: Option<Seq<u8>>,
}

impl View for CastMessage {
    type V = Envelope;

    open spec fn view(&self) -> Envelope {
        Envelope {
            protocol_version: self.protocol_version,
            source_id: self.source_id@,
            destination_id: self.destination_id@,
            namespace: self.namespace@,
            payload_type: self.payload_type,
            payload_utf8: text_of_option(self.payload_utf8),
            payload_binary: match self.payload_binary {
                Some(b) => Some(b@),
                None => None,
            },
        }
    }
}

/// An envelope with nothing in it.
pub open spec fn empty_envelope() -> Envelope {
    Envelope {
        protocol_version: None,
        source_id: Seq::empty(),
        destination_id: Seq::empty(),
        namespace: Seq::empty(),
        payload_type: None,
        payload_utf8: None,
        payload_binary: None,
    }
}

/// An envelope around a JSON payload.
pub open spec fn json_envelope(
    source: Seq<char>,
    destination: Seq<char>,
    ns: Seq<char>,
    json: Seq<char>,
) -> Envelope {
    Envelope {
        protocol_version: Some(ProtocolVersion::Castv21_0.number()),
        source_id: source,
        destination_id: destination,
        namespace: ns,
        payload_type: Some(PayloadType::String.number()),
        payload_utf8: Some(json),
        payload_binary: None,
    }
}

/// A number field, where there is a number.
pub open spec fn number_part(tag: u32, v: Option<i32>) -> Seq<u8> {
    match v {
        Some(n) => number_field(tag, n),
        None => Seq::empty(),
    }
}

/// A text field; empty texts are left out.
pub open spec fn text_part(tag: u32, s: Seq<char>) -> Seq<u8> {
    if s.len() == 0 {
        Seq::empty()
    } else {
        bytes_field(tag, encode_utf8(s))
    }
}

/// A text field, where there is a text, empty or not.
pub open spec fn optional_text_part(tag: u32, s: Option<Seq<char>>) -> Seq<u8> {
    match s {
        Some(t) => bytes_field(tag, encode_utf8(t)),
        None => Seq::empty(),
    }
}

/// A bytes field, where there are bytes.
pub open spec fn bytes_part(tag: u32, b: Option<Seq<u8>>) -> Seq<u8> {
    match b {
        Some(d) => bytes_field(tag, d),
        None => Seq::empty(),
    }
}

/// The envelope on the wire, without its length.
pub open spec fn encoded(e: Envelope) -> Seq<u8> {
    number_part(1, e.protocol_version) + text_part(2, e.source_id) + text_part(
        3,
        e.destination_id,
    ) + text_part(4, e.namespace) + number_part(5, e.payload_type) + optional_text_part(
        6,
        e.payload_utf8,
    ) + bytes_part(7, e.payload_binary)
}

/// The envelope on the wire, with its length.
pub open spec fn framed(e: Envelope) -> Seq<u8> {
    be_bytes(encoded(e).len(), 4) + encoded(e)
}

/// The envelope after one more field, and how many bytes the field takes
/// behind its key. A field that comes again replaces the earlier one; a field
/// that nobody knows is passed over.
pub open spec fn field_read(e: Envelope, tag: u32, wire_type: u8, bytes: Seq<u8>) -> Option<
    (Envelope, nat),
> {
    if tag == 1 || tag == 5 {
        if wire_type != WIRE_VARINT {
            None
        } else {
            match varint_read(bytes, 10) {
                None => None,
                Some((v, n)) => Some(
                    (
                        if tag == 1 {
                            Envelope { protocol_version: Some(low_signed(v)), ..e }
                        } else {
                            Envelope { payload_type: Some(low_signed(v)), ..e }
                        },
                        n,
                    ),
                ),
            }
        }
    } else if tag == 2 || tag == 3 || tag == 4 || tag == 6 {
        match bytes_read(wire_type, bytes) {
            None => None,
            Some((b, n)) => if valid_utf8(b) {
                let s = decode_utf8(b);
                Some(
                    (
                        if tag == 2 {
                            Envelope { source_id: s, ..e }
                        } else if tag == 3 {
                            Envelope { destination_id: s, ..e }
                        } else if tag == 4 {
                            Envelope { namespace: s, ..e }
                        } else {
                            Envelope { payload_utf8: Some(s), ..e }
                        },
                        n,
                    ),
                )
            } else {
                None
            },
        }
    } else if tag == 7 {
        match bytes_read(wire_type, bytes) {
            None => None,
            Some((b, n)) => Some((Envelope { payload_binary: Some(b), ..e }, n)),
        }
    } else {
        match skip_len(wire_type, tag, bytes) {
            None => None,
            Some(n) => Some((e, n)),
        }
    }
}

/// The envelope after all fields of `bytes`.
pub open spec fn fields_read(e: Envelope, bytes: Seq<u8>) -> Option<Envelope>
    decreases bytes.len(),
{
    if bytes.len() == 0 {
        Some(e)
    } else {
        match key_read(bytes) {
            None => None,
            Some((tag, wire_type, n)) => {
                let behind = bytes.skip(n as int);
                match field_read(e, tag, wire_type, behind) {
                    None => None,
                    Some((next, k)) => {
                        proof {
                            lemma_varint_read(bytes, 10);
                        }
                        if behind.skip(k as int).len() < bytes.len() {
                            fields_read(next, behind.skip(k as int))
                        } else {
                            None
                        }
                    },
                }
            },
        }
    }
}

/// What the front of a buffer holds.
pub enum Frame {
    /// Not a whole message yet.
    Incomplete,
    /// A message that claims more than the largest size.
    TooLarge(nat),
    /// A whole message that cannot be read, and what follows it.
    Garbled(Seq<u8>),
    /// A message, and what follows it.
    Message(Envelope, Seq<u8>),
}

/// What the front of a buffer holds.
pub open spec fn frame_read(buffer: Seq<u8>) -> Frame {
    if buffer.len() < 4 {
        Frame::Incomplete
    } else {
        let len = be_value(buffer.take(4));
        if len > MAX_MESSAGE_SIZE {
            Frame::TooLarge(len)
        } else if buffer.len() < 4 + len {
            Frame::Incomplete
        } else {
            let rest = buffer.skip((4 + len) as int);
            match fields_read(empty_envelope(), buffer.subrange(4, (4 + len) as int)) {
                Some(e) => Frame::Message(e, rest),
                None => Frame::Garbled(rest),
            }
        }
    }
}

/// The byte buffer of bytes.
#[verifier::external_type_specification]
#[verifier::external_body]
pub struct ExBytesMut(bytes::BytesMut);

/// The bytes that a buffer holds.
pub uninterp spec fn buffered(buffer: BytesMut) -> Seq<u8>;

/// `BytesMut` read as a slice: the bytes that it holds.
#[verifier::external_body]
fn buffer_bytes(buffer: &BytesMut) -> (bytes: &[u8])
    ensures
        bytes@ == buffered(*buffer),
{
    &buffer[..]
}

/// How many bytes a buffer holds.
pub fn buffer_len(buffer: &BytesMut) -> (n: usize)
    ensures
        n == buffered(*buffer).len(),
{
    buffer_bytes(buffer).len()
}

/// `BytesMut::advance` drops bytes at the front.
#[verifier::external_body]
fn buffer_advance(buffer: &mut BytesMut, n: usize)
    requires
        n <= buffered(*old(buffer)).len(),
    ensures
        buffered(*final(buffer)) == buffered(*old(buffer)).skip(n as int),
{
    bytes::Buf::advance(buffer, n);
}

/// `BytesMut::split_to` takes bytes off the front.
#[verifier::external_body]
fn buffer_split(buffer: &mut BytesMut, n: usize) -> (front: BytesMut)
    requires
        n <= buffered(*old(buffer)).len(),
    ensures
        buffered(*final(buffer)) == buffered(*old(buffer)).skip(n as int),
        buffered(front) == buffered(*old(buffer)).take(n as int),
{
    buffer.split_to(n)
}

/// Reads the fields of an envelope.
fn decode_fields(bytes: &[u8]) -> (out: Result<CastMessage, prost::DecodeError>)
    ensures
        match out {
            Ok(m) => fields_read(empty_envelope(), bytes@) == Some(m@),
            Err(_) => fields_read(empty_envelope(), bytes@) is None,
        },
{
    let mut m = CastMessage {
        protocol_version: None,
        source_id: String::new(),
        destination_id: String::new(),
        namespace: String::new(),
        payload_type: None,
        payload_utf8: None,
        payload_binary: None,
    };
    let mut rest: &[u8] = bytes;
    while rest.len() > 0
        invariant
            fields_read(m@, rest@) == fields_read(empty_envelope(), bytes@),
        decreases rest@.len(),
    {
        let ghost before = rest@;
        let ghost e = m@;
        proof {
            lemma_varint_read(before, 10);
        }
        let (tag, wire_type, behind) = match take_key(rest) {
            Ok(k) => k,
            Err(error) => {
                return Err(error);
            },
        };
        let ghost tail = behind@;
        proof {
            lemma_varint_read(tail, 10);
        }
        match tag {
            1 => match take_number(wire_type, behind) {
                Ok((v, r)) => {
                    m.protocol_version = Some(v);
                    rest = r;
                },
                Err(error) => {
                    return Err(error);
                },
            },
            2 => match take_text(wire_type, behind) {
                Ok((s, r)) => {
                    m.source_id = s;
                    rest = r;
                },
                Err(error) => {
                    return Err(error);
                },
            },
            3 => match take_text(wire_type, behind) {
                Ok((s, r)) => {
                    m.destination_id = s;
                    rest = r;
                },
                Err(error) => {
                    return Err(error);
                },
            },
            4 => match take_text(wire_type, behind) {
                Ok((s, r)) => {
                    m.namespace = s;
                    rest = r;
                },
                Err(error) => {
                    return Err(error);
                },
            },
            5 => match take_number(wire_type, behind) {
                Ok((v, r)) => {
                    m.payload_type = Some(v);
                    rest = r;
                },
                Err(error) => {
                    return Err(error);
                },
            },
            6 => match take_text(wire_type, behind) {
                Ok((s, r)) => {
                    m.payload_utf8 = Some(s);
                    rest = r;
                },
                Err(error) => {
                    return Err(error);
                },
            },
            7 => match take_bytes(wire_type, behind) {
                Ok((b, r)) => {
                    m.payload_binary = Some(b);
                    rest = r;
                },
                Err(error) => {
                    return Err(error);
                },
            },
            _ => match pass_field(wire_type, tag, behind) {
                Ok(r) => {
                    rest = r;
                },
                Err(error) => {
                    return Err(error);
                },
            },
        }
        proof {
            let read = field_read(e, tag, wire_type, tail);
            assert(read is Some);
            assert(m@ == (read->0).0);
            assert(rest@ == tail.skip((read->0).1 as int));
        }
    }
    Ok(m)
}

impl CastMessage {
    /// A message with a JSON payload.
    pub fn new_json(source_id: &str, destination_id: &str, namespace: &str, json: String) -> (out:
        Result<Self, CastV2Error>)
        ensures
            out matches Ok(m) && m@ == json_envelope(
                source_id@,
                destination_id@,
                namespace@,
                json@,
            ),
    {
        Ok(
            CastMessage {
                protocol_version: Some(ProtocolVersion::Castv21_0.as_number()),
                source_id: source_id.to_owned(),
                destination_id: destination_id.to_owned(),
                namespace: namespace.to_owned(),
                payload_type: Some(PayloadType::String.as_number()),
                payload_utf8: Some(json),
                payload_binary: None,
            },
        )
    }

    /// A message with a payload of bytes.
    pub fn new_binary(
        source_id: &str,
        destination_id: &str,
        namespace: &str,
        data: Vec<u8>,
    ) -> (m: Self)
        ensures
            m@ == (Envelope {
                protocol_version: Some(ProtocolVersion::Castv21_0.number()),
                source_id: source_id@,
                destination_id: destination_id@,
                namespace: namespace@,
                payload_type: Some(PayloadType::Binary.number()),
                payload_utf8: None,
                payload_binary: Some(data@),
            }),
    {
        CastMessage {
            protocol_version: Some(ProtocolVersion::Castv21_0.as_number()),
            source_id: source_id.to_owned(),
            destination_id: destination_id.to_owned(),
            namespace: namespace.to_owned(),
            payload_type: Some(PayloadType::Binary.as_number()),
            payload_utf8: None,
            payload_binary: Some(data),
        }
    }

    fn encode_fields(&self) -> (out: Vec<u8>)
        ensures
            out@ == encoded(self@),
    {
        let mut out: Vec<u8> = Vec::new();
        match self.protocol_version {
            Some(v) => {
                put_number(&mut out, 1, v);
            },
            None => {},
        }
        assert(out@ =~= number_part(1, self.protocol_version));
        if self.source_id.as_str().unicode_len() > 0 {
            put_text(&mut out, 2, &self.source_id);
        }
        if self.destination_id.as_str().unicode_len() > 0 {
            put_text(&mut out, 3, &self.destination_id);
        }
        if self.namespace.as_str().unicode_len() > 0 {
            put_text(&mut out, 4, &self.namespace);
        }
        match self.payload_type {
            Some(v) => {
                put_number(&mut out, 5, v);
            },
            None => {},
        }
        match &self.payload_utf8 {
            Some(s) => {
                put_text(&mut out, 6, s);
            },
            None => {},
        }
        match &self.payload_binary {
            Some(b) => {
                put_bytes(&mut out, 7, b);
            },
            None => {},
        }
        assert(out@ =~= encoded(self@));
        out
    }

    /// The message on the wire with its length in front; a message over the
    /// largest size is refused.
    pub fn encode_length_prefixed(&self) -> (out: Result<Vec<u8>, CastV2Error>)
        ensures
            match out {
                Ok(bytes) => encoded(self@).len() <= MAX_MESSAGE_SIZE && bytes@ == framed(self@),
                Err(e) => encoded(self@).len() > MAX_MESSAGE_SIZE && (e matches
                    CastV2Error::FrameTooLarge { size, max } && size == encoded(self@).len() && max
                    == MAX_MESSAGE_SIZE),
            },
    {
        let body: Vec<u8> = self.encode_fields();
        let len: usize = body.len();
        if len > MAX_MESSAGE_SIZE {
            return Err(CastV2Error::FrameTooLarge { size: len, max: MAX_MESSAGE_SIZE });
        }
        let mut out: Vec<u8> = Vec::new();
        push_be(&mut out, len as u64, LENGTH_PREFIX_SIZE);
        push_all(&mut out, body.as_slice());
        assert(out@ =~= framed(self@));
        Ok(out)
    }

    /// Takes the message at the front of the buffer. A message that is not
    /// complete, or claims to be too large, leaves the buffer as it is; a
    /// complete one goes, whether or not it can be read.
    pub fn decode_length_prefixed(buf: &mut BytesMut) -> (out: Result<Option<Self>, CastV2Error>)
        ensures
            match frame_read(buffered(*old(buf))) {
                Frame::Incomplete => out matches Ok(None) && buffered(*final(buf)) == buffered(
                    *old(buf),
                ),
                Frame::TooLarge(n) => (out matches Err(CastV2Error::FrameTooLarge { size, max })
                    && size == n && max == MAX_MESSAGE_SIZE) && buffered(*final(buf)) == buffered(
                    *old(buf),
                ),
                Frame::Garbled(rest) => out matches Err(CastV2Error::Decode(_)) && buffered(
                    *final(buf),
                ) == rest,
                Frame::Message(e, rest) => (out matches Ok(Some(m)) && m@ == e) && buffered(
                    *final(buf),
                ) == rest,
            },
    {
        let ghost all = buffered(*buf);
        let bytes: &[u8] = buffer_bytes(&*buf);
        let have: usize = bytes.len();
        if have < LENGTH_PREFIX_SIZE {
            return Ok(None);
        }
        let announced: u64 = read_be(bytes, 0, 4);
        proof {
            assert(all.subrange(0, 4) =~= all.take(4));
            lemma_be_value_bound(all.take(4));
            lemma_pow256_small();
        }
        let msg_len: usize = announced as usize;
        if msg_len > MAX_MESSAGE_SIZE {
            return Err(CastV2Error::FrameTooLarge { size: msg_len, max: MAX_MESSAGE_SIZE });
        }
        if have - LENGTH_PREFIX_SIZE < msg_len {
            return Ok(None);
        }
        buffer_advance(buf, LENGTH_PREFIX_SIZE);
        let data: BytesMut = buffer_split(buf, msg_len);
        proof {
            assert(all.skip(4).take(msg_len as int) =~= all.subrange(4, 4 + msg_len));
            assert(all.skip(4).skip(msg_len as int) =~= all.skip(4 + msg_len));
        }
        match decode_fields(buffer_bytes(&data)) {
            Ok(m) => Ok(Some(m)),
            Err(e) => Err(CastV2Error::Decode(e)),
        }
    }

    /// The payload to be parsed: an empty object where there is none.
    pub fn payload_text(&self) -> (text: &str)
        ensures
            text@ == payload_of(self@),
    {
        match &self.payload_utf8 {
            Some(s) => s.as_str(),
            None => "{}",
        }
    }

    /// The type of the message: that of the parsed payload, where there is a
    /// payload and it could be parsed.
    pub fn message_type(&self, parsed: Option<&GenericPayload>) -> (ty: Option<String>)
        ensures
            text_of_option(ty) == match (self@.payload_utf8, parsed) {
                (Some(_), Some(p)) => Some(p.msg_type@),
                _ => None,
            },
    {
        match (&self.payload_utf8, parsed) {
            (Some(_), Some(p)) => Some(p.msg_type.clone()),
            _ => None,
        }
    }
}

/// The payload to be parsed.
pub open spec fn payload_of(e: Envelope) -> Seq<char> {
    match e.payload_utf8 {
        Some(s) => s,
        None => "{}"@,
    }
}

proof fn lemma_number_part(e: Envelope, tag: u32, v: Option<i32>, rest: Seq<u8>)
    requires
        tag == 1 || tag == 5,
    ensures
        fields_read(e, number_part(tag, v) + rest) == fields_read(
            if v is None {
                e
            } else if tag == 1 {
                Envelope { protocol_version: v, ..e }
            } else {
                Envelope { payload_type: v, ..e }
            },
            rest,
        ),
{
    match v {
        None => {
            assert(number_part(tag, v) + rest =~= rest);
        },
        Some(n) => {
            let key = field_key(tag, WIRE_VARINT);
            let value = varint(sign_extended(n));
            let all = number_part(tag, v) + rest;
            assert(all =~= key + (value + rest));
            key_round_trip(tag, WIRE_VARINT, value + rest);
            lemma_varint_read(all, 10);
            assert(all.skip(key.len() as int) =~= value + rest);
            number_round_trip(n);
            varint_round_trip(sign_extended(n), rest);
            lemma_varint_read(value + rest, 10);
            assert((value + rest).skip(value.len() as int) =~= rest);
        },
    }
}

/// A bytes field is read as its bytes.
proof fn lemma_bytes_field(e: Envelope, tag: u32, data: Seq<u8>, rest: Seq<u8>)
    requires
        2 <= tag <= 7,
        tag != 5,
        data.len() <= u64::MAX,
        tag != 7 ==> valid_utf8(data),
    ensures
        fields_read(e, bytes_field(tag, data) + rest) == fields_read(
            if tag == 2 {
                Envelope { source_id: decode_utf8(data), ..e }
            } else if tag == 3 {
                Envelope { destination_id: decode_utf8(data), ..e }
            } else if tag == 4 {
                Envelope { namespace: decode_utf8(data), ..e }
            } else if tag == 6 {
                Envelope { payload_utf8: Some(decode_utf8(data)), ..e }
            } else {
                Envelope { payload_binary: Some(data), ..e }
            },
            rest,
        ),
{
    let key = field_key(tag, WIRE_BYTES);
    let body = varint(data.len()) + data;
    let all = bytes_field(tag, data) + rest;
    assert(all =~= key + (body + rest));
    key_round_trip(tag, WIRE_BYTES, body + rest);
    lemma_varint_read(all, 10);
    assert(all.skip(key.len() as int) =~= body + rest);
    bytes_round_trip(data, rest);
    assert(body + rest =~= varint(data.len()) + data + rest);
    assert((body + rest).skip(body.len() as int) =~= rest);
}

proof fn lemma_text_field(e: Envelope, tag: u32, s: Seq<char>, rest: Seq<u8>)
    requires
        tag == 2 || tag == 3 || tag == 4 || tag == 6,
        encode_utf8(s).len() <= u64::MAX,
    ensures
        fields_read(e, bytes_field(tag, encode_utf8(s)) + rest) == fields_read(
            if tag == 2 {
                Envelope { source_id: s, ..e }
            } else if tag == 3 {
                Envelope { destination_id: s, ..e }
            } else if tag == 4 {
                Envelope { namespace: s, ..e }
            } else {
                Envelope { payload_utf8: Some(s), ..e }
            },
            rest,
        ),
{
    vstd::utf8::encode_utf8_valid_utf8(s);
    vstd::utf8::encode_utf8_decode_utf8(s);
    lemma_bytes_field(e, tag, encode_utf8(s), rest);
}

proof fn lemma_text_part(e: Envelope, tag: u32, s: Seq<char>, rest: Seq<u8>)
    requires
        tag == 2 || tag == 3 || tag == 4,
        text_part(tag, s).len() <= u64::MAX,
        tag == 2 ==> e.source_id.len() == 0,
        tag == 3 ==> e.destination_id.len() == 0,
        tag == 4 ==> e.namespace.len() == 0,
    ensures
        fields_read(e, text_part(tag, s) + rest) == fields_read(
            if tag == 2 {
                Envelope { source_id: s, ..e }
            } else if tag == 3 {
                Envelope { destination_id: s, ..e }
            } else {
                Envelope { namespace: s, ..e }
            },
            rest,
        ),
{
    if s.len() == 0 {
        assert(text_part(tag, s) + rest =~= rest);
        assert(s =~= Seq::<char>::empty());
        if tag == 2 {
            assert(e.source_id =~= s);
        } else if tag == 3 {
            assert(e.destination_id =~= s);
        } else {
            assert(e.namespace =~= s);
        }
    } else {
        lemma_text_field(e, tag, s, rest);
    }
}

/// The fields of the payload are read back.
proof fn lemma_payload_parts(before: Envelope, e: Envelope)
    requires
        before.payload_utf8 is None,
        before.payload_binary is None,
        e == (Envelope {
            payload_utf8: e.payload_utf8,
            payload_binary: e.payload_binary,
            ..before
        }),
        optional_text_part(6, e.payload_utf8).len() <= u64::MAX,
        bytes_part(7, e.payload_binary).len() <= u64::MAX,
    ensures
        fields_read(
            before,
            optional_text_part(6, e.payload_utf8) + bytes_part(7, e.payload_binary),
        ) == Some(e),
{
    let p6 = optional_text_part(6, e.payload_utf8);
    let p7 = bytes_part(7, e.payload_binary);
    let middle = Envelope { payload_utf8: e.payload_utf8, ..before };
    match e.payload_utf8 {
        Some(s) => {
            lemma_text_field(before, 6, s, p7);
        },
        None => {
            assert(p6 + p7 =~= p7);
        },
    }
    assert(fields_read(before, p6 + p7) == fields_read(middle, p7));
    match e.payload_binary {
        Some(b) => {
            let end = Seq::<u8>::empty();
            lemma_bytes_field(middle, 7, b, end);
            assert(p7 + end =~= p7);
            assert(fields_read(e, end) == Some(e));
        },
        None => {},
    }
}

/// The fields of the addresses are read back.
proof fn lemma_address_parts(before: Envelope, e: Envelope, rest: Seq<u8>)
    requires
        before.source_id.len() == 0,
        before.destination_id.len() == 0,
        before.namespace.len() == 0,
        text_part(2, e.source_id).len() <= u64::MAX,
        text_part(3, e.destination_id).len() <= u64::MAX,
        text_part(4, e.namespace).len() <= u64::MAX,
    ensures
        fields_read(
            before,
            text_part(2, e.source_id) + text_part(3, e.destination_id) + text_part(4, e.namespace)
                + rest,
        ) == fields_read(
            Envelope {
                source_id: e.source_id,
                destination_id: e.destination_id,
                namespace: e.namespace,
                ..before
            },
            rest,
        ),
{
    let p2 = text_part(2, e.source_id);
    let p3 = text_part(3, e.destination_id);
    let p4 = text_part(4, e.namespace);
    let e2 = Envelope { source_id: e.source_id, ..before };
    let e3 = Envelope { destination_id: e.destination_id, ..e2 };
    assert(p2 + p3 + p4 + rest =~= p2 + (p3 + (p4 + rest)));
    lemma_text_part(before, 2, e.source_id, p3 + (p4 + rest));
    lemma_text_part(e2, 3, e.destination_id, p4 + rest);
    lemma_text_part(e3, 4, e.namespace, rest);
}

/// The fields that were written are read back, whatever they hold.
pub proof fn fields_round_trip(e: Envelope)
    requires
        encoded(e).len() <= u64::MAX,
    ensures
        fields_read(empty_envelope(), encoded(e)) == Some(e),
{
    let p1 = number_part(1, e.protocol_version);
    let addresses = text_part(2, e.source_id) + text_part(3, e.destination_id) + text_part(
        4,
        e.namespace,
    );
    let p5 = number_part(5, e.payload_type);
    let payload = optional_text_part(6, e.payload_utf8) + bytes_part(7, e.payload_binary);
    assert(encoded(e) =~= p1 + (addresses + (p5 + payload)));
    let e0 = empty_envelope();
    let e1 = Envelope { protocol_version: e.protocol_version, ..e0 };
    let e4 = Envelope {
        source_id: e.source_id,
        destination_id: e.destination_id,
        namespace: e.namespace,
        ..e1
    };
    let e5 = Envelope { payload_type: e.payload_type, ..e4 };
    lemma_number_part(e0, 1, e.protocol_version, addresses + (p5 + payload));
    lemma_address_parts(e1, e, p5 + payload);
    lemma_number_part(e4, 5, e.payload_type, payload);
    lemma_payload_parts(e5, e);
}

/// What was sent is what arrives: the front of a buffer that starts with a
/// sent message holds that message, and what follows it stays.
pub proof fn sent_message_arrives(e: Envelope, rest: Seq<u8>)
    requires
        encoded(e).len() <= MAX_MESSAGE_SIZE,
    ensures
        frame_read(framed(e) + rest) == Frame::Message(e, rest),
{
    let body = encoded(e);
    let all = framed(e) + rest;
    lemma_be_bytes_len(body.len(), 4);
    lemma_pow256_small();
    be_bytes_round_trip(body.len(), 4);
    assert(all.take(4) =~= be_bytes(body.len(), 4));
    assert(all.subrange(4, (4 + body.len()) as int) =~= body);
    assert(all.skip((4 + body.len()) as int) =~= rest);
    fields_round_trip(e);
}

/// Any part of a sent message short of the whole is no message yet.
pub proof fn part_of_message_is_incomplete(e: Envelope, n: int)
    requires
        encoded(e).len() <= MAX_MESSAGE_SIZE,
        0 <= n < framed(e).len(),
    ensures
        frame_read(framed(e).take(n)) == Frame::Incomplete,
{
    let body = encoded(e);
    lemma_be_bytes_len(body.len(), 4);
    lemma_pow256_small();
    be_bytes_round_trip(body.len(), 4);
    if n >= 4 {
        assert(framed(e).take(n).take(4) =~= be_bytes(body.len(), 4));
    }
}

/// The fields of an envelope stand under the protocol's numbers: version,
/// source, destination, namespace, kind of payload, text and bytes are one to
/// seven, in this order.
pub proof fn envelope_stands_on_the_wire(e: Envelope, version: i32, kind: i32, text: Seq<char>)
    requires
        e.protocol_version == Some(version),
        e.payload_type == Some(kind),
        e.payload_utf8 == Some(text),
        e.payload_binary is None,
        e.source_id.len() > 0,
        e.destination_id.len() > 0,
        e.namespace.len() > 0,
        version >= 0,
        kind >= 0,
    ensures
        encoded(e) == seq![0x08u8] + varint(version as nat) + (seq![0x12u8] + varint(
            encode_utf8(e.source_id).len(),
        ) + encode_utf8(e.source_id)) + (seq![0x1au8] + varint(encode_utf8(e.destination_id).len())
            + encode_utf8(e.destination_id)) + (seq![0x22u8] + varint(
            encode_utf8(e.namespace).len(),
        ) + encode_utf8(e.namespace)) + (seq![0x28u8] + varint(kind as nat)) + (seq![0x32u8]
            + varint(encode_utf8(text).len()) + encode_utf8(text)),
{
    let none = Seq::<u8>::empty();
    crate::chromecast::proto::fields_go_out_by_the_book(1, version, none);
    crate::chromecast::proto::fields_go_out_by_the_book(2, 0, encode_utf8(e.source_id));
    crate::chromecast::proto::fields_go_out_by_the_book(3, 0, encode_utf8(e.destination_id));
    crate::chromecast::proto::fields_go_out_by_the_book(4, 0, encode_utf8(e.namespace));
    crate::chromecast::proto::fields_go_out_by_the_book(5, kind, none);
    crate::chromecast::proto::fields_go_out_by_the_book(6, 0, encode_utf8(text));
    assert(encoded(e) =~= number_field(1, version) + bytes_field(2, encode_utf8(e.source_id))
        + bytes_field(3, encode_utf8(e.destination_id)) + bytes_field(
        4,
        encode_utf8(e.namespace),
    ) + number_field(5, kind) + bytes_field(6, encode_utf8(text)));
}

/// The bytes of a message stand under the seventh number.
pub proof fn bytes_stand_under_seven(e: Envelope, data: Seq<u8>)
    requires
        e.payload_binary == Some(data),
    ensures
        encoded(e) == encoded(Envelope { payload_binary: None, ..e }) + (seq![0x3au8] + varint(
            data.len(),
        ) + data),
{
    crate::chromecast::proto::fields_go_out_by_the_book(7, 0, data);
    assert(encoded(e) =~= encoded(Envelope { payload_binary: None, ..e }) + bytes_field(7, data));
}

/// A message goes out behind its length in four bytes, most significant first,
/// and none above a mebibyte is taken.
pub proof fn messages_go_out_behind_their_length(e: Envelope, buffer: Seq<u8>)
    ensures
        encoded(e).len() < 0x1_0000_0000 ==> be_value(framed(e).take(4)) == encoded(e).len()
            && framed(e).skip(4) == encoded(e),
        MAX_MESSAGE_SIZE == 1_048_576,
        LENGTH_PREFIX_SIZE == 4,
        buffer.len() >= 4 && be_value(buffer.take(4)) > 1_048_576 ==> frame_read(buffer)
            == Frame::TooLarge(be_value(buffer.take(4))),
        buffer.len() < 4 ==> frame_read(buffer) is Incomplete,
{
    let n = encoded(e).len();
    lemma_be_bytes_len(n, 4);
    assert(framed(e).take(4) =~= be_bytes(n, 4));
    assert(framed(e).skip(4) =~= encoded(e));
    if n < 0x1_0000_0000 {
        lemma_pow256_small();
        be_bytes_round_trip(n, 4);
    }
}

/// The protocol has the version zero, texts are payloads of kind zero and bytes
/// of kind one.
pub proof fn kinds_have_the_protocols_numbers()
    ensures
        ProtocolVersion::Castv21_0.number() == 0,
        PayloadType::String.number() == 0,
        PayloadType::Binary.number() == 1,
{
}

/// A JSON message carries its text and nothing else, from its source to its
/// destination on its namespace.
pub proof fn json_messages_carry_their_text(
    source: Seq<char>,
    destination: Seq<char>,
    ns: Seq<char>,
    json: Seq<char>,
)
    ensures
        ({
            let e = json_envelope(source, destination, ns, json);
            &&& e.source_id == source
            &&& e.destination_id == destination
            &&& e.namespace == ns
            &&& e.payload_utf8 == Some(json)
            &&& e.payload_binary is None
            &&& e.protocol_version == Some(0i32)
            &&& e.payload_type == Some(0i32)
        }),
{
}

} // verus!
