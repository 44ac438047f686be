//! The rules of an AirPlay session: which step is allowed when.

use vstd::prelude::*;
use vstd::string::*;

use crate::airplay::discovery::AIRPLAY_PROTOCOL;
use crate::airplay::pin_pair::{post_setup, setup_request, PairingChallenge};
use crate::airplay::rtsp::{next_cseq, RtspManager, RtspReqBuilder};
use crate::airplay::tlv::{
    fragments, record, TLV_TYPE_FLAGS, TLV_TYPE_METHOD, TLV_TYPE_STATE,
};
use crate::crypto::{
    ed25519_generate, hex_encode, is_version_four, random_bytes, random_in, random_uuid,
};
use crate::device::{uuid_spelling, uuid_text, Device};
use crate::error::FerricastError;
use crate::media::{Codec, EncodedFrame};
use crate::text::{
    digits_value, debug_spelling, debug_text, hex_lower, hex_upper_byte, join2, push_hex_upper_byte, str_eq,
};

verus! {

/// Where a session stands.
#[derive(Clone, Copy, Debug, PartialEq, Eq, Structural)]
pub enum SessionState {
    Disconnected,
    /// Connected, and waiting for the PIN from the user.
    AwaitingPin,
    Connected,
    Paired,
    Ready,
    Streaming,
    TearingDown,
}

/// How a session pairs.
#[derive(Clone, Copy, Debug, PartialEq, Eq, Structural)]
pub enum PairingMode {
    Legacy,
    Hap,
    Transient,
}

/// What the user answered to a pairing challenge.
pub enum PairingResponse {
    Pin(String),
    Confirmed,
    Cancelled,
}

/// The name of a state.
pub open spec fn state_name(state: SessionState) -> Seq<char> {
    match state {
        SessionState::Disconnected => "Disconnected"@,
        SessionState::AwaitingPin => "AwaitingPin"@,
        SessionState::Connected => "Connected"@,
        SessionState::Paired => "Paired"@,
        SessionState::Ready => "Ready"@,
        SessionState::Streaming => "Streaming"@,
        SessionState::TearingDown => "TearingDown"@,
    }
}

impl SessionState {
    /// The name of the state.
    pub fn name(&self) -> (name: &'static str)
        ensures
            name@ == state_name(*self),
    {
        match self {
            SessionState::Disconnected => "Disconnected",
            SessionState::AwaitingPin => "AwaitingPin",
            SessionState::Connected => "Connected",
            SessionState::Paired => "Paired",
            SessionState::Ready => "Ready",
            SessionState::Streaming => "Streaming",
            SessionState::TearingDown => "TearingDown",
        }
    }
}

/// The bytes that the TLV writer appends for a value: its records, and an
/// empty record behind a last one that is full.
pub open spec fn tlv8_item(tag: u8, value: Seq<u8>) -> Seq<u8> {
    if value.len() > 0 && value.len() % 255 == 0 {
        fragments(tag, value) + record(tag, Seq::empty())
    } else {
        fragments(tag, value)
    }
}

/// `Tlv8Writer::push` of hap-tlv8 appends the records of one value.
#[verifier::external_body]
fn tlv8_push(out: &mut Vec<u8>, tag: u8, value: &[u8])
    ensures
        final(out)@ == old(out)@ + tlv8_item(tag, value@),
{
    hap_tlv8::Tlv8Writer::new(out).push(tag, value);
}

/// The message that asks for transient pairing.
pub open spec fn transient_request_bytes() -> Seq<u8> {
    tlv8_item(TLV_TYPE_METHOD, seq![0u8]) + tlv8_item(TLV_TYPE_STATE, seq![1u8]) + tlv8_item(
        TLV_TYPE_FLAGS,
        seq![0x10u8, 0, 0, 0],
    )
}

/// The request that asks for transient pairing.
pub fn transient_request(manager: &mut RtspManager) -> (request: RtspReqBuilder)
    ensures
        final(manager).last() == next_cseq(old(manager).last()),
        request@ == setup_request(final(manager).last(), transient_request_bytes()),
{
    let method: Vec<u8> = vec![0u8];
    let state: Vec<u8> = vec![1u8];
    let flags: Vec<u8> = vec![0x10u8, 0, 0, 0];
    let mut bytes: Vec<u8> = Vec::new();
    tlv8_push(&mut bytes, TLV_TYPE_METHOD, method.as_slice());
    tlv8_push(&mut bytes, TLV_TYPE_STATE, state.as_slice());
    tlv8_push(&mut bytes, TLV_TYPE_FLAGS, flags.as_slice());
    proof {
        assert(method@ =~= seq![0u8]);
        assert(state@ =~= seq![1u8]);
        assert(flags@ =~= seq![0x10u8, 0, 0, 0]);
        assert(bytes@ =~= transient_request_bytes());
    }
    post_setup(manager, bytes)
}

/// A screen mirroring session.
pub struct AirPlaySession {
    pub state: SessionState,
    pub session_id: String,
    pub client_device_id: String,
    pub alive: bool,
    pub frame_counter: u64,
    pub pairing_mode: Option<PairingMode>,
    /// Whether a connection is held for the pairing to go on with.
    pub pending_conn: bool,
}

/// Six bytes as pairs of hexadecimal digits with colons between them.
pub open spec fn device_id_spelling(bytes: Seq<u8>) -> Seq<char>
    decreases bytes.len(),
{
    if bytes.len() == 0 {
        Seq::empty()
    } else if bytes.len() == 1 {
        hex_upper_byte(bytes[0])
    } else {
        device_id_spelling(bytes.drop_last()) + seq![':'] + hex_upper_byte(bytes.last())
    }
}

/// The bytes as pairs of hexadecimal digits with colons between them.
pub fn device_id_text(bytes: &[u8]) -> (out: String)
    ensures
        out@ == device_id_spelling(bytes@),
{
    let mut out: String = String::new();
    let mut i: usize = 0;
    while i < bytes.len()
        invariant
            i <= bytes@.len(),
            out@ == device_id_spelling(bytes@.take(i as int)),
        decreases bytes@.len() - i,
    {
        if i > 0 {
            out.push(':');
        }
        push_hex_upper_byte(&mut out, bytes[i]);
        proof {
            let next = bytes@.take(i + 1);
            assert(next.drop_last() =~= bytes@.take(i as int));
            assert(next.last() == bytes@[i as int]);
            assert(out@ =~= device_id_spelling(next));
        }
        i = i + 1;
    }
    assert(bytes@.take(bytes@.len() as int) =~= bytes@);
    out
}

/// A random client identifier in the form of a hardware address.
pub fn generate_device_id() -> (id: String)
    ensures
        exists|bytes: Seq<u8>| bytes.len() == 6 && id@ == #[trigger] device_id_spelling(bytes),
{
    let bytes: Vec<u8> = random_bytes(6);
    device_id_text(bytes.as_slice())
}

/// A random text of `len` characters from the digit zero to the letter Z.
pub fn random_string(len: usize) -> (out: String)
    ensures
        out@.len() == len,
        forall|i: int| 0 <= i < len ==> '0' <= #[trigger] out@[i] && out@[i] <= 'Z',
{
    let mut out: String = String::new();
    let mut i: usize = 0;
    while i < len
        invariant
            i <= len,
            out@.len() == i,
            forall|k: int| 0 <= k < i ==> '0' <= #[trigger] out@[k] && out@[k] <= 'Z',
        decreases len - i,
    {
        let b: u8 = random_in(48, 90);
        out.push(b as char);
        i = i + 1;
    }
    out
}

/// A random user name, and a random signing key in hexadecimal digits.
pub fn generate_auth_token() -> (token: (String, String))
    ensures
        token.0@.len() == 16,
        forall|i: int| 0 <= i < 16 ==> '0' <= #[trigger] token.0@[i] && token.0@[i] <= 'Z',
        exists|key: Seq<u8>| key.len() == 32 && token.1@ == #[trigger] hex_lower(key),
{
    let secret: Vec<u8> = ed25519_generate();
    let shown: String = hex_encode(secret.as_slice());
    (random_string(16), shown)
}

/// Whether the session may carry frames at all.
pub open spec fn is_connected_state(state: SessionState) -> bool {
    state == SessionState::Connected || state == SessionState::Paired || state
        == SessionState::Ready || state == SessionState::Streaming
}

/// Whether a stream may be set up in this state.
pub open spec fn may_stream(state: SessionState) -> bool {
    state == SessionState::Connected || state == SessionState::Paired
}

/// The session after the user's answer to the challenge.
pub open spec fn after_answer(session: AirPlaySession, response: PairingResponse) -> AirPlaySession {
    match response {
        PairingResponse::Cancelled => AirPlaySession {
            state: SessionState::Disconnected,
            pending_conn: false,
            ..session
        },
        PairingResponse::Confirmed => session,
        PairingResponse::Pin(_) => if !session.pending_conn {
            session
        } else if session.pairing_mode is None {
            AirPlaySession { pending_conn: false, ..session }
        } else {
            AirPlaySession { state: SessionState::Connected, ..session }
        },
    }
}

/// The session after it was told to stop.
pub open spec fn after_stop(session: AirPlaySession) -> AirPlaySession {
    if session.state == SessionState::Disconnected {
        session
    } else {
        AirPlaySession { state: SessionState::TearingDown, pending_conn: false, ..session }
    }
}

impl AirPlaySession {
    /// A session that is not connected, under fresh random identifiers.
    pub fn new() -> (session: Self)
        ensures
            session.state == SessionState::Disconnected,
            exists|id: u128|
                is_version_four(id) && session.session_id@ == #[trigger] uuid_spelling(id),
            exists|bytes: Seq<u8>|
                bytes.len() == 6 && session.client_device_id@ == #[trigger] device_id_spelling(
                    bytes,
                ),
            !session.alive,
            session.frame_counter == 0,
            session.pairing_mode is None,
            !session.pending_conn,
    {
        let id: u128 = random_uuid();
        AirPlaySession {
            state: SessionState::Disconnected,
            session_id: uuid_text(id),
            client_device_id: generate_device_id(),
            alive: false,
            frame_counter: 0,
            pairing_mode: None,
            pending_conn: false,
        }
    }

    /// The identifier of the session.
    pub fn session_id(&self) -> (id: &str)
        ensures
            id@ == self.session_id@,
    {
        self.session_id.as_str()
    }

    /// Whether a connection to the device may be opened, and how it pairs.
    pub fn connect(&self, device: &Device) -> (out: Result<PairingMode, FerricastError>)
        requires
            device.protocol@ == AIRPLAY_PROTOCOL@ ==> device.metadata@.dom().contains(
                "pair_method"@,
            ) && device.metadata@["pair_method"@]@ == "Transient"@,
        ensures
            match out {
                Ok(mode) => device.protocol@ == AIRPLAY_PROTOCOL@ && self.state
                    == SessionState::Disconnected && mode == PairingMode::Transient,
                Err(e) => if device.protocol@ != AIRPLAY_PROTOCOL@ {
                    e.is_protocol(
                        "Expected AirPlay device, got "@ + debug_spelling(device.protocol@),
                    )
                } else {
                    self.state != SessionState::Disconnected && e.is_already_active(device.name@)
                },
            },
    {
        if !str_eq(device.protocol.as_str(), AIRPLAY_PROTOCOL) {
            let shown: String = debug_text(device.protocol.as_str());
            return Err(
                FerricastError::Protocol(join2("Expected AirPlay device, got ", shown.as_str())),
            );
        }
        if self.state != SessionState::Disconnected {
            return Err(FerricastError::SessionAlreadyActive(device.name.clone()));
        }
        Ok(PairingMode::Transient)
    }

    /// Holds the open connection for the pairing: the user is asked for four digits.
    pub fn connected(&mut self, mode: PairingMode) -> (challenge: PairingChallenge)
        ensures
            challenge == (PairingChallenge::Pin { digits: 4 }),
            *final(self) == (AirPlaySession {
                state: SessionState::AwaitingPin,
                pairing_mode: Some(mode),
                pending_conn: true,
                ..*old(self)
            }),
    {
        self.pairing_mode = Some(mode);
        self.pending_conn = true;
        self.state = SessionState::AwaitingPin;
        PairingChallenge::Pin { digits: 4 }
    }

    /// Takes the user's answer. A PIN needs a held connection and a pairing
    /// mode; a refused answer keeps no connection, except that a mere
    /// confirmation changes nothing.
    pub fn submit_pairing(&mut self, response: PairingResponse) -> (out: Result<
        (),
        FerricastError,
    >)
        ensures
            match response {
                PairingResponse::Cancelled => {
                    &&& out matches Err(e) && e.is_protocol("AirPlay pairing cancelled"@)
                },
                PairingResponse::Confirmed => {
                    &&& out matches Err(e) && e.is_protocol(
                        "AirPlay pairing expects a PIN, got Confirmed"@,
                    )
                },
                PairingResponse::Pin(_) => if !old(self).pending_conn {
                    &&& out matches Err(e) && e.is_protocol(
                        "submit_pairing called without a pending connection"@,
                    )
                } else if old(self).pairing_mode is None {
                    &&& out matches Err(e) && e.is_protocol("Invalid pairing mode"@)
                } else {
                    out is Ok
                },
            },
            *final(self) == after_answer(*old(self), response),
    {
        match response {
            PairingResponse::Cancelled => {
                self.state = SessionState::Disconnected;
                self.pending_conn = false;
                Err(FerricastError::Protocol("AirPlay pairing cancelled".to_owned()))
            },
            PairingResponse::Confirmed => Err(
                FerricastError::Protocol("AirPlay pairing expects a PIN, got Confirmed".to_owned()),
            ),
            PairingResponse::Pin(_) => {
                if !self.pending_conn {
                    return Err(
                        FerricastError::Protocol(
                            "submit_pairing called without a pending connection".to_owned(),
                        ),
                    );
                }
                if self.pairing_mode.is_none() {
                    self.pending_conn = false;
                    return Err(FerricastError::Protocol("Invalid pairing mode".to_owned()));
                }
                self.state = SessionState::Connected;
                Ok(())
            },
        }
    }

    /// Starts a stream of the codec: only on a connection that was paired, and
    /// only of H.264.
    pub fn setup_stream(&mut self, codec: Codec) -> (out: Result<(), FerricastError>)
        ensures
            match out {
                Ok(()) => may_stream(old(self).state) && codec == Codec::H264 && *final(self) == (
                AirPlaySession { state: SessionState::Streaming, ..*old(self) }),
                Err(e) => *final(self) == *old(self) && if !may_stream(old(self).state) {
                    e.is_protocol("Cannot setup stream in state: "@ + state_name(old(self).state))
                } else {
                    codec != Codec::H264 && e.is_unsupported(codec, AIRPLAY_PROTOCOL@)
                },
            },
    {
        if self.state != SessionState::Connected && self.state != SessionState::Paired {
            return Err(
                FerricastError::Protocol(
                    join2("Cannot setup stream in state: ", self.state.name()),
                ),
            );
        }
        if codec != Codec::H264 {
            return Err(
                FerricastError::UnsupportedCodec { codec, protocol: AIRPLAY_PROTOCOL.to_owned() },
            );
        }
        self.state = SessionState::Streaming;
        Ok(())
    }

    /// Whether a frame may be sent: only while streaming, and only H.264.
    pub fn send_frame(&self, frame: &EncodedFrame) -> (out: Result<(), FerricastError>)
        ensures
            match out {
                Ok(()) => self.state == SessionState::Streaming && frame.codec == Codec::H264,
                Err(e) => if self.state != SessionState::Streaming {
                    e.is_streaming("Cannot send frame in state: "@ + state_name(self.state))
                } else {
                    frame.codec != Codec::H264 && e.is_unsupported(
                        frame.codec,
                        AIRPLAY_PROTOCOL@,
                    )
                },
            },
    {
        if self.state != SessionState::Streaming {
            return Err(
                FerricastError::Streaming(join2("Cannot send frame in state: ", self.state.name())),
            );
        }
        if frame.codec != Codec::H264 {
            return Err(
                FerricastError::UnsupportedCodec {
                    codec: frame.codec,
                    protocol: AIRPLAY_PROTOCOL.to_owned(),
                },
            );
        }
        Ok(())
    }

    /// Ends the session; one that is not connected stays as it is.
    pub fn stop(&mut self)
        ensures
            *final(self) == after_stop(*old(self)),
    {
        if self.state != SessionState::Disconnected {
            self.state = SessionState::TearingDown;
            self.pending_conn = false;
        }
    }

    /// Whether the session is alive and connected.
    pub fn is_alive(&self) -> (alive: bool)
        ensures
            alive == (self.alive && is_connected_state(self.state)),
    {
        self.alive && match self.state {
            SessionState::Connected | SessionState::Paired | SessionState::Ready
            | SessionState::Streaming => true,
            _ => false,
        }
    }
}

/// A session that was stopped carries no frame.
pub proof fn stopped_session_is_not_alive(state: SessionState)
    requires
        state == SessionState::TearingDown || state == SessionState::Disconnected,
    ensures
        !is_connected_state(state),
{
}

/// The names of the states are their own, no two alike.
pub proof fn states_have_their_names()
    ensures
        state_name(SessionState::Disconnected) == "Disconnected"@,
        state_name(SessionState::AwaitingPin) == "AwaitingPin"@,
        state_name(SessionState::Connected) == "Connected"@,
        state_name(SessionState::Paired) == "Paired"@,
        state_name(SessionState::Ready) == "Ready"@,
        state_name(SessionState::Streaming) == "Streaming"@,
        state_name(SessionState::TearingDown) == "TearingDown"@,
{
}

/// A session carries frames from its connection until it is torn down, and in
/// no other state.
pub proof fn frames_flow_while_connected(state: SessionState)
    ensures
        is_connected_state(state) == !(state == SessionState::Disconnected || state
            == SessionState::AwaitingPin || state == SessionState::TearingDown),
{
}

/// The receiver finds in the request for transient pairing the plain method,
/// the state one, and the flag of transient pairing, least significant byte
/// first.
pub proof fn transient_request_is_read_back()
    ensures
        ({
            let fields = crate::airplay::tlv::decoded(transient_request_bytes());
            &&& fields.dom().contains(0u8) && fields[0u8] == seq![0u8]
            &&& fields.dom().contains(6u8) && fields[6u8] == seq![1u8]
            &&& fields.dom().contains(19u8) && crate::octets::le_value(fields[19u8]) == 0x10
            &&& fields[19u8].len() == 4
        }),
{
    let items: Seq<crate::airplay::tlv::Item> = seq![
        (0u8, seq![0u8]),
        (6u8, seq![1u8]),
        (19u8, seq![0x10u8, 0, 0, 0]),
    ];
    let e = crate::airplay::tlv::encoded(items);
    assert(items.drop_last().drop_last().drop_last() =~= Seq::empty());
    assert(items.drop_last().drop_last().last() == (0u8, seq![0u8]));
    assert(items.drop_last().last() == (6u8, seq![1u8]));
    reveal_with_fuel(crate::airplay::tlv::encoded, 4);
    assert(transient_request_bytes() =~= e);
    crate::airplay::tlv::decode_gives_distinct_item(items, 0);
    crate::airplay::tlv::decode_gives_distinct_item(items, 1);
    crate::airplay::tlv::decode_gives_distinct_item(items, 2);
    let f = seq![0x10u8, 0, 0, 0];
    assert(f.skip(1) =~= seq![0u8, 0, 0]);
    assert(f.skip(1).skip(1) =~= seq![0u8, 0]);
    assert(f.skip(1).skip(1).skip(1) =~= seq![0u8]);
    assert(f.skip(1).skip(1).skip(1).skip(1) =~= Seq::<u8>::empty());
    reveal_with_fuel(crate::octets::le_value, 5);
}

/// Each byte of a client identifier is read back from its two digits in upper
/// case, with a colon in front of all but the first.
pub proof fn client_identifier_is_read_back(bytes: Seq<u8>, i: int)
    requires
        0 <= i < bytes.len(),
    ensures
        device_id_spelling(bytes).len() == 3 * bytes.len() - 1,
        device_id_spelling(bytes).subrange(3 * i, 3 * i + 2) == hex_upper_byte(bytes[i]),
        digits_value(device_id_spelling(bytes).subrange(3 * i, 3 * i + 2), 16) == Some(
            bytes[i] as nat,
        ),
        i > 0 ==> device_id_spelling(bytes)[3 * i - 1] == ':',
    decreases bytes.len(),
{
    let s = device_id_spelling(bytes);
    crate::text::upper_byte_is_read_back(bytes[i]);
    if bytes.len() == 1 {
        assert(s.subrange(0, 2) =~= hex_upper_byte(bytes[0]));
    } else {
        let rest = bytes.drop_last();
        let r = device_id_spelling(rest);
        client_identifier_is_read_back(rest, if i < rest.len() {
            i
        } else {
            0
        });
        if i < rest.len() {
            assert(s.subrange(3 * i, 3 * i + 2) =~= r.subrange(3 * i, 3 * i + 2));
        } else {
            assert(s.subrange(3 * i, 3 * i + 2) =~= hex_upper_byte(bytes[i]));
        }
    }
}

/// A PIN connects a held connection whose way of pairing is known, and nothing
/// else does; a cancelled pairing leaves no connection.
pub proof fn only_a_pin_connects(session: AirPlaySession, response: PairingResponse)
    requires
        session.state == SessionState::AwaitingPin,
    ensures
        after_answer(session, response).state == SessionState::Connected <==> response is Pin
            && session.pending_conn && session.pairing_mode is Some,
        response is Cancelled ==> after_answer(session, response).state
            == SessionState::Disconnected && !after_answer(session, response).pending_conn,
        response is Confirmed ==> after_answer(session, response) == session,
        after_answer(session, response).session_id == session.session_id,
        after_answer(session, response).pairing_mode == session.pairing_mode,
{
}

/// Streams are set up on connections that are there and do not stream yet.
pub proof fn streams_need_a_connection(state: SessionState)
    ensures
        may_stream(SessionState::Connected),
        may_stream(SessionState::Paired),
        may_stream(state) ==> state != SessionState::Disconnected && state
            != SessionState::AwaitingPin && state != SessionState::Streaming && state
            != SessionState::TearingDown,
{
}

/// Stopping drops the connection and lets no stream begin; to stop once more
/// changes nothing.
pub proof fn stopping_once_is_enough(session: AirPlaySession)
    ensures
        !may_stream(after_stop(session).state),
        after_stop(session).state != SessionState::Streaming,
        session.state != SessionState::Disconnected ==> !after_stop(session).pending_conn
            && after_stop(session).state == SessionState::TearingDown,
        session.state == SessionState::Disconnected ==> after_stop(session) == session,
        after_stop(after_stop(session)) == after_stop(session),
{
}

} // verus!
