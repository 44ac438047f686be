//! Casting over HTTP live streaming: when a session may do what, what is sent
//! to the receiver, and what its messages lead to.

use vstd::prelude::*;
use vstd::string::*;

use crate::chromecast::castv2::{json_envelope, CastMessage, Envelope};
use crate::chromecast::h264_params::{extract_sps_pps, parameter_sets, start_codes};
use crate::chromecast::json::{
    has_member, json_parsed, parse, quoted, text_of_option, tree_of, Json, Tree,
};
use crate::chromecast::launch::{
    bump, closing, closing_messages, envelopes, extracted, next_id, try_extract_app, ExtractApp,
    Extracted, NEXT_REQUEST_ID,
};
use crate::chromecast::media_error::{error_code, is_named_code, MediaDetailedErrorCode};
use crate::chromecast::messages::{
    get_status_message, load_media_message, pong_message, to_platform, DEFAULT_SENDER_ID,
};
use crate::chromecast::namespace;
use crate::chromecast::payload::{
    bare_request_json, load_request_json, type_json, GenericPayload, MediaInfo,
    MediaStatusPayload, ReceiverStatusPayload,
};
use crate::device::{Device, IpAddress};
use crate::error::FerricastError;
use crate::media::{audio_codec_name, AudioCodec, AudioFrame, Codec, EncodedFrame, StreamConfig};
use crate::text::{
    debug_option, debug_option_text, debug_spelling, debug_text, decimal, join2, push_decimal,
    signed_decimal, str_eq,
};

verus! {

/// The name of the protocol.
pub const CHROMECAST_PROTOCOL: &'static str = "chromecast";

/// How many video frames wait for the segmenter.
pub const FRAME_QUEUE_DEPTH: usize = 64;

/// How many sound frames wait for the segmenter.
pub const AUDIO_QUEUE_DEPTH: usize = 64;

/// A connection on which the player runs.
#[derive(Debug)]
pub struct ConnectedState {
    pub transport_id: String,
    pub session_id: String,
    pub local_ip: IpAddress,
    pub requires_audio: bool,
    pub supports_low_latency_hls: bool,
    /// The number of the next request.
    pub request_id: i64,
    pub alive: bool,
}

/// The endpoint that the player fetches from.
#[derive(Clone, Copy, Debug, PartialEq, Eq, Structural)]
pub struct StreamState {
    pub audio: bool,
}

/// A session.
#[derive(Debug)]
pub struct ChromecastSession {
    pub state: Option<ConnectedState>,
    pub stream: Option<StreamState>,
    pub cfg: Option<StreamConfig>,
}

/// What to do with a frame.
#[derive(Clone, Copy, Debug, PartialEq, Eq, Structural)]
pub enum FrameAction {
    /// Nobody can use it.
    Drop,
    /// Set the endpoint up with it, then hand it on.
    Bootstrap,
    /// Hand it on.
    Forward,
}

/// What came of handing a frame on.
#[derive(Clone, Copy, Debug, PartialEq, Eq, Structural)]
pub enum Handed {
    Taken,
    Full,
    Closed,
}

/// How the endpoint is set up.
#[derive(Debug)]
pub struct HlsBootstrap {
    pub parameter_sets: Vec<u8>,
    pub audio_enabled: bool,
    pub inject_silent_audio: bool,
    /// The length of the parts of a segment, where the receiver takes parts.
    pub part_target_ms: Option<u32>,
    pub target_fps: u32,
}

/// What to do with a video frame, as the endpoint is set up or not.
pub open spec fn video_action(set_up: bool, key: bool) -> FrameAction {
    if set_up {
        FrameAction::Forward
    } else if key {
        FrameAction::Bootstrap
    } else {
        FrameAction::Drop
    }
}

/// What to do with a sound frame, as the endpoint is set up.
pub open spec fn sound_action(stream: Option<StreamState>) -> FrameAction {
    match stream {
        Some(s) if s.audio => FrameAction::Forward,
        _ => FrameAction::Drop,
    }
}

/// How long the parts of a segment are, in milliseconds, where there are any.
pub open spec fn part_target(low_latency: bool) -> Option<u32> {
    if low_latency {
        Some(500)
    } else {
        None
    }
}

/// The parameter sets of a stream.
pub open spec fn sets_of(data: Seq<u8>) -> Seq<u8> {
    parameter_sets(data, start_codes(data, 0), start_codes(data, 0).len() as int)
}

/// Whether a session of a protocol may connect to a device: `refusal` is what
/// it says to devices of another protocol.
pub open spec fn connect_refused(
    device: Device,
    active: bool,
    refusal: Seq<char>,
    e: FerricastError,
) -> bool {
    if device.protocol@ != CHROMECAST_PROTOCOL@ {
        e.is_protocol(refusal)
    } else {
        active && e.is_already_active(device.name@)
    }
}

impl ChromecastSession {
    /// A session that is not connected.
    pub fn new() -> (session: Self)
        ensures
            session == (ChromecastSession { state: None, stream: None, cfg: None }),
    {
        ChromecastSession { state: None, stream: None, cfg: None }
    }

    /// Whether the session may connect to the device.
    pub fn connect(&self, device: &Device) -> (out: Result<(), FerricastError>)
        ensures
            match out {
                Ok(()) => device.protocol@ == CHROMECAST_PROTOCOL@ && self.state is None,
                Err(e) => connect_refused(
                    *device,
                    self.state is Some,
                    "ChromecastSession cannot connect to a "@ + debug_spelling(device.protocol@)
                        + " device"@,
                    e,
                ),
            },
    {
        if !str_eq(device.protocol.as_str(), CHROMECAST_PROTOCOL) {
            let mut text: String = "ChromecastSession cannot connect to a ".to_owned();
            let shown: String = debug_text(device.protocol.as_str());
            text.append(shown.as_str());
            text.append(" device");
            return Err(FerricastError::Protocol(text));
        }
        if self.state.is_some() {
            return Err(FerricastError::SessionAlreadyActive(device.name.clone()));
        }
        Ok(())
    }

    /// The player runs: the session keeps what it needs of the device.
    pub fn launched(
        &mut self,
        device: &Device,
        transport_id: String,
        session_id: String,
        local_ip: IpAddress,
    )
        ensures
            *final(self) == (ChromecastSession {
                state: Some(
                    ConnectedState {
                        transport_id,
                        session_id,
                        local_ip,
                        requires_audio: device.capabilities.requires_audio,
                        supports_low_latency_hls: device.capabilities.supports_low_latency_hls,
                        request_id: NEXT_REQUEST_ID,
                        alive: true,
                    },
                ),
                ..*old(self)
            }),
    {
        self.state = Some(
            ConnectedState {
                transport_id,
                session_id,
                local_ip,
                requires_audio: device.capabilities.requires_audio,
                supports_low_latency_hls: device.capabilities.supports_low_latency_hls,
                request_id: NEXT_REQUEST_ID,
                alive: true,
            },
        );
    }

    /// Takes the set-up of a stream: only while connected, and only of H.264.
    pub fn setup_stream(&mut self, config: &StreamConfig) -> (out: Result<(), FerricastError>)
        ensures
            match out {
                Ok(()) => old(self).state is Some && config.codec == Codec::H264 && *final(self)
                    == (ChromecastSession { cfg: Some(*config), ..*old(self) }),
                Err(e) => *final(self) == *old(self) && if old(self).state is None {
                    e is NoActiveSession
                } else {
                    config.codec != Codec::H264 && e.is_unsupported(
                        config.codec,
                        CHROMECAST_PROTOCOL@,
                    )
                },
            },
    {
        if self.state.is_none() {
            return Err(FerricastError::NoActiveSession);
        }
        if config.codec != Codec::H264 {
            return Err(
                FerricastError::UnsupportedCodec {
                    codec: config.codec,
                    protocol: CHROMECAST_PROTOCOL.to_owned(),
                },
            );
        }
        self.cfg = Some(*config);
        Ok(())
    }

    /// What to do with a video frame: nothing before the first key frame,
    /// which sets the endpoint up.
    pub fn send_frame(&self, frame: &EncodedFrame) -> (out: Result<FrameAction, FerricastError>)
        ensures
            match out {
                Ok(action) => frame.codec == Codec::H264 && action == video_action(
                    self.stream is Some,
                    frame.is_keyframe,
                ),
                Err(e) => frame.codec != Codec::H264 && e.is_unsupported(
                    frame.codec,
                    CHROMECAST_PROTOCOL@,
                ),
            },
    {
        if frame.codec != Codec::H264 {
            return Err(
                FerricastError::UnsupportedCodec {
                    codec: frame.codec,
                    protocol: CHROMECAST_PROTOCOL.to_owned(),
                },
            );
        }
        if self.stream.is_some() {
            Ok(FrameAction::Forward)
        } else if frame.is_keyframe {
            Ok(FrameAction::Bootstrap)
        } else {
            Ok(FrameAction::Drop)
        }
    }

    /// What to do with a sound frame: it is handed on once the endpoint is set
    /// up with sound.
    pub fn send_audio_frame(&self, frame: &AudioFrame) -> (out: Result<
        FrameAction,
        FerricastError,
    >)
        ensures
            match out {
                Ok(action) => frame.codec == AudioCodec::Aac && action == sound_action(self.stream),
                Err(e) => frame.codec != AudioCodec::Aac && e.is_encoder(
                    "chromecast: expected AAC audio, got "@ + audio_codec_name(frame.codec),
                ),
            },
    {
        if frame.codec != AudioCodec::Aac {
            return Err(
                FerricastError::Encoder(
                    join2("chromecast: expected AAC audio, got ", frame.codec.name()),
                ),
            );
        }
        match self.stream {
            Some(s) => if s.audio {
                Ok(FrameAction::Forward)
            } else {
                Ok(FrameAction::Drop)
            },
            None => Ok(FrameAction::Drop),
        }
    }

    /// How the endpoint is set up with the first key frame, which has to carry
    /// the parameter sets.
    pub fn bootstrap_hls(&self, first_keyframe: &EncodedFrame) -> (out: Result<
        HlsBootstrap,
        FerricastError,
    >)
        ensures
            match out {
                Ok(b) => {
                    &&& self.state matches Some(s)
                    &&& self.cfg matches Some(c)
                    &&& b.parameter_sets@ == sets_of(first_keyframe.data@)
                    &&& b.parameter_sets@.len() > 0
                    &&& b.audio_enabled == (c.audio is Some)
                    &&& b.inject_silent_audio == s.requires_audio
                    &&& b.part_target_ms == part_target(s.supports_low_latency_hls)
                    &&& b.target_fps == c.fps
                },
                Err(e) => if self.state is None {
                    e is NoActiveSession
                } else if self.cfg is None {
                    e.is_streaming("setup_stream not called"@)
                } else {
                    sets_of(first_keyframe.data@).len() == 0 && e.is_encoder(
                        "first keyframe carries no SPS/PPS; cannot bootstrap HLS"@,
                    )
                },
            },
    {
        let state: &ConnectedState = match &self.state {
            Some(s) => s,
            None => {
                return Err(FerricastError::NoActiveSession);
            },
        };
        let cfg: &StreamConfig = match &self.cfg {
            Some(c) => c,
            None => {
                return Err(FerricastError::Streaming("setup_stream not called".to_owned()));
            },
        };
        let parameter_sets: Vec<u8> = extract_sps_pps(first_keyframe.data.as_slice());
        if parameter_sets.len() == 0 {
            return Err(
                FerricastError::Encoder(
                    "first keyframe carries no SPS/PPS; cannot bootstrap HLS".to_owned(),
                ),
            );
        }
        Ok(
            HlsBootstrap {
                parameter_sets,
                audio_enabled: cfg.audio.is_some(),
                inject_silent_audio: state.requires_audio,
                part_target_ms: if state.supports_low_latency_hls {
                    Some(500)
                } else {
                    None
                },
                target_fps: cfg.fps,
            },
        )
    }

    /// The endpoint is up.
    pub fn bootstrapped(&mut self, audio: bool)
        ensures
            *final(self) == (ChromecastSession {
                stream: Some(StreamState { audio }),
                ..*old(self)
            }),
    {
        self.stream = Some(StreamState { audio });
    }

    /// The request that has the player load the endpoint as a live stream.
    pub fn load(&mut self, url: String) -> (out: Result<CastMessage, FerricastError>)
        ensures
            match (old(self).state, out) {
                (None, Err(e)) => e is NoActiveSession && *final(self) == *old(self),
                (Some(s), Ok(m)) => {
                    &&& *final(self) == (ChromecastSession {
                        state: Some(ConnectedState { request_id: next_id(s.request_id), ..s }),
                        ..*old(self)
                    })
                    &&& exists|media: MediaInfo| #[trigger]
                        is_live_media(media, url@) && m@ == json_envelope(
                            DEFAULT_SENDER_ID@,
                            s.transport_id@,
                            namespace::MEDIA@,
                            load_request_json(s.request_id, media),
                        )
                },
                _ => false,
            },
    {
        let state: ConnectedState = match self.state.take() {
            Some(s) => s,
            None => {
                return Err(FerricastError::NoActiveSession);
            },
        };
        let media = MediaInfo {
            content_id: url,
            content_type: "application/x-mpegurl".to_owned(),
            stream_type: Some("LIVE".to_owned()),
            duration: None,
        };
        assert(is_live_media(media, url@));
        let made = load_media_message(state.request_id, state.transport_id.as_str(), media);
        let request_id: i64 = bump(state.request_id);
        self.state = Some(
            ConnectedState {
                transport_id: state.transport_id,
                session_id: state.session_id,
                local_ip: state.local_ip,
                requires_audio: state.requires_audio,
                supports_low_latency_hls: state.supports_low_latency_hls,
                request_id,
                alive: state.alive,
            },
        );
        match made {
            Ok(m) => Ok(m),
            Err(_) => Err(FerricastError::NoActiveSession),
        }
    }

    /// Ends the session: the messages to send, none where it is not connected.
    pub fn stop(&mut self) -> (messages: Vec<CastMessage>)
        ensures
            *final(self) == (ChromecastSession { state: None, stream: None, ..*old(self) }),
            envelopes(messages@) == match old(self).state {
                Some(s) => closing(s.request_id, s.session_id@),
                None => Seq::empty(),
            },
    {
        self.stream = None;
        match self.state.take() {
            Some(s) => closing_messages(s.request_id, s.session_id.as_str()),
            None => {
                let none: Vec<CastMessage> = Vec::new();
                assert(envelopes(none@) =~= Seq::<Envelope>::empty());
                none
            },
        }
    }

    /// Whether the session is connected and the receiver answers.
    pub fn is_alive(&self) -> (alive: bool)
        ensures
            alive == (self.state matches Some(s) && s.alive),
    {
        match &self.state {
            Some(s) => s.alive,
            None => false,
        }
    }
}

/// Whether this is a live stream at the address.
pub open spec fn is_live_media(media: MediaInfo, url: Seq<char>) -> bool {
    &&& media.content_id@ == url
    &&& media.content_type@ == "application/x-mpegurl"@
    &&& media.stream_type matches Some(t)
    &&& t@ == "LIVE"@
    &&& media.duration is None
}

/// What the failure to hand a frame on means: a full queue drops the frame, a
/// closed one ends the stream.
pub fn handed_on(outcome: Handed, closed: &str) -> (out: Result<(), FerricastError>)
    ensures
        match out {
            Ok(()) => outcome != Handed::Closed,
            Err(e) => outcome == Handed::Closed && e.is_streaming(closed@),
        },
{
    match outcome {
        Handed::Closed => Err(FerricastError::Streaming(closed.to_owned())),
        Handed::Taken | Handed::Full => Ok(()),
    }
}

/// The address of the playlist.
pub open spec fn playlist_address(scheme: Seq<char>, host: Seq<char>, port: u16) -> Seq<char> {
    scheme + "://"@ + host + ":"@ + decimal(port as nat) + "/index.m3u8"@
}

/// The address of the playlist.
pub fn media_url(scheme: &str, host: &str, port: u16) -> (url: String)
    ensures
        url@ == playlist_address(scheme@, host@, port),
{
    let mut url: String = scheme.to_owned();
    url.append("://");
    url.append(host);
    url.append(":");
    push_decimal(&mut url, port as u64);
    url.append("/index.m3u8");
    url
}

/// A payload as far as it could be read.
#[derive(Debug)]
pub struct ParsedPayload {
    pub generic: Option<GenericPayload>,
    pub receiver: Option<ReceiverStatusPayload>,
    pub media: Option<MediaStatusPayload>,
}

/// The type of a message.
pub open spec fn kind_of(e: Envelope, generic: Option<GenericPayload>) -> Option<Seq<char>> {
    match (e.payload_utf8, generic) {
        (Some(_), Some(g)) => Some(g.msg_type@),
        _ => None,
    }
}

/// How loud a status is.
#[derive(Clone, Copy, Debug, PartialEq, Eq, Structural)]
pub enum StatusLevel {
    /// The player stalls or stops.
    Warn,
    /// The player does something else than before.
    Info,
    /// Nothing has changed.
    Debug,
}

/// What a message of the receiver leads to.
#[derive(Debug)]
pub enum ReadStep {
    /// Nothing.
    Continue,
    /// This has to be sent.
    Send(CastMessage),
    /// The application runs: its transport and its session.
    Launched(String, String),
    /// The player reported its status.
    Status(StatusLevel),
    /// The receiver refused the media, and why; the session is over.
    Rejected(Option<MediaDetailedErrorCode>),
    /// The session is over; who waits for the launch gets the error.
    Stop(Option<FerricastError>),
}

/// What is kept between messages of the receiver.
#[derive(Debug)]
pub struct Reader {
    /// The application whose launch is waited for.
    pub launch_watch: Option<String>,
    pub last_player_state: Option<String>,
}

/// Whether a message of this type says that the media was refused.
pub open spec fn is_rejection(kind: Option<Seq<char>>) -> bool {
    kind == Some("LOAD_FAILED"@) || kind == Some("INVALID_REQUEST"@) || kind == Some(
        "INVALID_PLAYER_STATE"@,
    ) || kind == Some("ERROR"@)
}

/// The code of a refusal, out of its payload.
pub open spec fn detail_of(json: Option<Tree>) -> Option<i64> {
    match json {
        Some(t) => t.int_member("detailedErrorCode"@),
        None => None,
    }
}

/// The error of a refusal, out of its payload.
pub fn rejection_detail(json: Option<&Json>) -> (detail: Option<MediaDetailedErrorCode>)
    ensures
        match detail {
            Some(d) => json matches Some(j) && tree_of(*j).int_member("detailedErrorCode"@) == Some(
                error_code(d),
            ) && (d is Unknown <==> !is_named_code(error_code(d))),
            None => json matches Some(j) ==> tree_of(*j).int_member("detailedErrorCode"@) is None,
        },
{
    match json {
        Some(j) => match j.int_member("detailedErrorCode") {
            Some(code) => Some(MediaDetailedErrorCode::from_code(code)),
            None => None,
        },
        None => None,
    }
}

/// The state of the first player of a status.
pub open spec fn player_state(media: Option<MediaStatusPayload>) -> Option<Seq<char>> {
    match media {
        Some(m) => if m.status@.len() > 0 {
            text_of_option(m.status@[0].player_state)
        } else {
            None
        },
        None => None,
    }
}

/// How loud a status is after another.
pub open spec fn status_level(before: Option<Seq<char>>, now: Option<Seq<char>>) -> StatusLevel {
    if before == now {
        StatusLevel::Debug
    } else if now == Some("BUFFERING"@) || now == Some("IDLE"@) {
        StatusLevel::Warn
    } else {
        StatusLevel::Info
    }
}

/// The number that a request for the status gets in answer to a message.
pub open spec fn nudge_id(e: Envelope, generic: Option<GenericPayload>) -> i64 {
    match (e.payload_utf8, generic) {
        (Some(_), Some(g)) => match g.request_id {
            Some(id) => next_id(id),
            None => 1,
        },
        _ => 1,
    }
}

fn is_text(s: &Option<String>, word: &str) -> (same: bool)
    ensures
        same == (text_of_option(*s) == Some(word@)),
{
    match s {
        Some(t) => str_eq(t.as_str(), word),
        None => false,
    }
}

fn same_option(a: &Option<String>, b: &Option<String>) -> (same: bool)
    ensures
        same == (text_of_option(*a) == text_of_option(*b)),
{
    match (a, b) {
        (Some(x), Some(y)) => str_eq(x.as_str(), y.as_str()),
        (None, None) => true,
        _ => false,
    }
}

/// What a message of the receiver leads to.
pub open spec fn takes_message(
    before: Reader,
    e: Envelope,
    parsed: ParsedPayload,
    step: ReadStep,
    after: Reader,
) -> bool {
    let ns = e.namespace;
    let kind = kind_of(e, parsed.generic);
    let watched = text_of_option(before.launch_watch);
    if ns == namespace::HEARTBEAT@ && kind == Some("PING"@) {
        &&& step matches ReadStep::Send(m)
        &&& m@ == to_platform(namespace::HEARTBEAT@, type_json("PONG"@))
        &&& after == before
    } else if ns == namespace::CONNECTION@ && kind == Some("CLOSE"@) {
        &&& step matches ReadStep::Stop(told)
        &&& match told {
            Some(why) => watched is Some && why.is_connection(
                "receiver sent CLOSE on connection namespace from src="@
                    + debug_spelling(e.source_id) + "; payload: "@ + debug_option(
                    e.payload_utf8,
                ),
            ),
            None => watched is None,
        }
        &&& after == (Reader { launch_watch: None, ..before })
    } else if ns == namespace::RECEIVER@ {
        if watched is None {
            step is Continue && after == before
        } else {
            match extracted(parsed.receiver, watched->0) {
                Extracted::Found(t, s) => {
                    &&& step matches ReadStep::Launched(a, b)
                    &&& a@ == t
                    &&& b@ == s
                    &&& after == (Reader { launch_watch: None, ..before })
                },
                Extracted::Pending(_) => {
                    &&& step matches ReadStep::Send(m)
                    &&& m@ == to_platform(
                        namespace::RECEIVER@,
                        bare_request_json(
                            "GET_STATUS"@,
                            nudge_id(e, parsed.generic),
                        ),
                    )
                    &&& after == before
                },
                Extracted::Skip => step is Continue && after == before,
            }
        }
    } else if ns == namespace::MEDIA@ && is_rejection(kind) {
        &&& step matches ReadStep::Rejected(detail)
        &&& after == before
        &&& ({
            let json = match e.payload_utf8 {
                Some(text) => match json_parsed(text) {
                    Ok(t) => Some(t),
                    Err(_) => None,
                },
                None => None,
            };
            match detail {
                Some(d) => detail_of(json) == Some(error_code(d)) && (d is Unknown
                    <==> !is_named_code(error_code(d))),
                None => detail_of(json) is None,
            }
        })
    } else if ns == namespace::MEDIA@ && kind == Some("MEDIA_STATUS"@) {
        let now = if e.payload_utf8 is Some {
            player_state(parsed.media)
        } else {
            None
        };
        let known = text_of_option(before.last_player_state);
        &&& step == ReadStep::Status(status_level(known, now))
        &&& text_of_option(after.last_player_state) == now
        &&& after.launch_watch == before.launch_watch
    } else {
        step is Continue && after == before
    }
}

impl Reader {
    /// Nothing was read; the launch of `app_id` is waited for.
    pub fn new(app_id: &str) -> (reader: Self)
        ensures
            text_of_option(reader.launch_watch) == Some(app_id@),
            reader.last_player_state is None,
    {
        Reader { launch_watch: Some(app_id.to_owned()), last_player_state: None }
    }

    /// Takes a message. A ping is answered. The closing of a connection ends
    /// the session. While a launch is waited for, a status either shows the
    /// application or has the status asked for again. A refusal of the media
    /// ends the session; a status of the player is compared with the last one.
    pub fn on_message(&mut self, msg: &CastMessage, parsed: &ParsedPayload) -> (step: ReadStep)
        ensures
            takes_message(*old(self), msg@, *parsed, step, *final(self)),
    {
        let kind: Option<String> = msg.message_type(parsed.generic.as_ref());
        assert(text_of_option(kind) == kind_of(msg@, parsed.generic));
        let ns: &str = msg.namespace.as_str();
        if str_eq(ns, namespace::HEARTBEAT) && is_text(&kind, "PING") {
            return match pong_message() {
                Ok(m) => ReadStep::Send(m),
                Err(_) => ReadStep::Continue,
            };
        }
        if str_eq(ns, namespace::CONNECTION) && is_text(&kind, "CLOSE") {
            return match self.launch_watch.take() {
                Some(_) => {
                    let mut text: String =
                        "receiver sent CLOSE on connection namespace from src=".to_owned();
                    let source: String = debug_text(msg.source_id.as_str());
                    text.append(source.as_str());
                    text.append("; payload: ");
                    let payload: String = debug_option_text(&msg.payload_utf8);
                    text.append(payload.as_str());
                    ReadStep::Stop(Some(FerricastError::Connection(text)))
                },
                None => ReadStep::Stop(None),
            };
        }
        if str_eq(ns, namespace::RECEIVER) {
            let said: ExtractApp = match &self.launch_watch {
                None => ExtractApp::Skip,
                Some(app_id) => try_extract_app(parsed.receiver.as_ref(), app_id.as_str()),
            };
            return match said {
                ExtractApp::Found(t, s) => {
                    self.launch_watch = None;
                    ReadStep::Launched(t, s)
                },
                ExtractApp::Pending(_) => {
                    let id: i64 = match (&msg.payload_utf8, &parsed.generic) {
                        (Some(_), Some(g)) => match g.request_id {
                            Some(id) => bump(id),
                            None => 1,
                        },
                        _ => 1,
                    };
                    match get_status_message(id) {
                        Ok(m) => ReadStep::Send(m),
                        Err(_) => ReadStep::Continue,
                    }
                },
                ExtractApp::Skip => ReadStep::Continue,
            };
        }
        if str_eq(ns, namespace::MEDIA) {
            if is_text(&kind, "LOAD_FAILED") || is_text(&kind, "INVALID_REQUEST") || is_text(
                &kind,
                "INVALID_PLAYER_STATE",
            ) || is_text(&kind, "ERROR") {
                let json: Option<Json> = match &msg.payload_utf8 {
                    Some(text) => match parse(text.as_str()) {
                        Ok(j) => Some(j),
                        Err(_) => None,
                    },
                    None => None,
                };
                return ReadStep::Rejected(rejection_detail(json.as_ref()));
            }
            if is_text(&kind, "MEDIA_STATUS") {
                let now: Option<String> = match (&msg.payload_utf8, &parsed.media) {
                    (Some(_), Some(m)) => if m.status.len() > 0 {
                        match &m.status[0].player_state {
                            Some(s) => Some(s.clone()),
                            None => None,
                        }
                    } else {
                        None
                    },
                    _ => None,
                };
                if same_option(&self.last_player_state, &now) {
                    return ReadStep::Status(StatusLevel::Debug);
                }
                let level: StatusLevel = if is_text(&now, "BUFFERING") || is_text(&now, "IDLE") {
                    StatusLevel::Warn
                } else {
                    StatusLevel::Info
                };
                self.last_player_state = now;
                return ReadStep::Status(level);
            }
        }
        ReadStep::Continue
    }

    /// The receiver closed the connection.
    pub fn on_closed(&mut self) -> (step: ReadStep)
        ensures
            step matches ReadStep::Stop(told) && match told {
                Some(e) => old(self).launch_watch is Some && e.is_connection(
                    "receiver closed before launch ack (try rebooting the chromecast — its session state may be stuck from a prior run)"@,
                ),
                None => old(self).launch_watch is None,
            },
            *final(self) == (Reader { launch_watch: None, ..*old(self) }),
    {
        match self.launch_watch.take() {
            Some(_) => ReadStep::Stop(
                Some(
                    FerricastError::Connection(
                        "receiver closed before launch ack (try rebooting the chromecast — its session state may be stuck from a prior run)".to_owned(),
                    ),
                ),
            ),
            None => ReadStep::Stop(None),
        }
    }

    /// The connection failed.
    pub fn on_failed(&mut self, error: FerricastError) -> (step: ReadStep)
        ensures
            step == ReadStep::Stop(
                if old(self).launch_watch is Some {
                    Some(error)
                } else {
                    None
                },
            ),
            *final(self) == (Reader { launch_watch: None, ..*old(self) }),
    {
        match self.launch_watch.take() {
            Some(_) => ReadStep::Stop(Some(error)),
            None => ReadStep::Stop(None),
        }
    }
}

/// A session that streams live has the player load a live playlist at the
/// address, to be played at once from the start.
pub proof fn live_streams_are_loaded_as_such(id: i64, media: MediaInfo, url: Seq<char>)
    requires
        is_live_media(media, url),
    ensures
        ({
            let text = load_request_json(id, media);
            let shown = crate::chromecast::payload::media_json(media);
            &&& has_member(text, "type"@, quoted("LOAD"@))
            &&& has_member(text, "requestId"@, signed_decimal(id as int))
            &&& has_member(text, "autoplay"@, "true"@)
            &&& has_member(text, "currentTime"@, "0.0"@)
            &&& has_member(text, "media"@, shown)
            &&& has_member(shown, "contentId"@, quoted(url))
            &&& has_member(shown, "contentType"@, quoted("application/x-mpegurl"@))
            &&& has_member(shown, "streamType"@, quoted("LIVE"@))
        }),
{
    crate::chromecast::payload::load_request_is_read_back(id, media);
}

/// A player that stalls or stops is reported loudly, once; one that does
/// anything else than before is reported, and one that goes on is not.
pub proof fn changes_are_reported_once(before: Option<Seq<char>>, now: Option<Seq<char>>)
    ensures
        status_level(now, now) == StatusLevel::Debug,
        before != now && now == Some("BUFFERING"@) ==> status_level(before, now)
            == StatusLevel::Warn,
        before != now && now == Some("IDLE"@) ==> status_level(before, now) == StatusLevel::Warn,
        before != now && now == Some("PLAYING"@) ==> status_level(before, now)
            == StatusLevel::Info,
        before != now && now == Some("PAUSED"@) ==> status_level(before, now) == StatusLevel::Info,
{
    reveal_strlit("BUFFERING");
    reveal_strlit("IDLE");
    reveal_strlit("PLAYING");
    reveal_strlit("PAUSED");
    assert("BUFFERING"@.len() == 9 && "IDLE"@.len() == 4 && "PLAYING"@.len() == 7
        && "PAUSED"@.len() == 6);
}

/// The messages that refuse the media, and some that do not.
pub proof fn refusals_are_told_from_reports(kind: Seq<char>)
    ensures
        is_rejection(Some("LOAD_FAILED"@)),
        is_rejection(Some("INVALID_REQUEST"@)),
        is_rejection(Some("INVALID_PLAYER_STATE"@)),
        is_rejection(Some("ERROR"@)),
        !is_rejection(None),
        is_rejection(Some(kind)) ==> kind == "LOAD_FAILED"@ || kind == "INVALID_REQUEST"@ || kind
            == "INVALID_PLAYER_STATE"@ || kind == "ERROR"@,
        !is_rejection(Some("MEDIA_STATUS"@)),
{
    reveal_strlit("MEDIA_STATUS");
    reveal_strlit("LOAD_FAILED");
    reveal_strlit("INVALID_REQUEST");
    reveal_strlit("INVALID_PLAYER_STATE");
    reveal_strlit("ERROR");
    assert("MEDIA_STATUS"@.len() == 12 && "LOAD_FAILED"@.len() == 11 && "INVALID_REQUEST"@.len()
        == 15 && "INVALID_PLAYER_STATE"@.len() == 20 && "ERROR"@.len() == 5);
}

/// A request in answer to a message has the number behind that of the message,
/// and one where the message has none.
pub proof fn answers_are_numbered_behind(e: Envelope, g: GenericPayload)
    ensures
        e.payload_utf8 is Some ==> nudge_id(e, Some(g)) == match g.request_id {
            Some(n) => if n < i64::MAX {
                n + 1
            } else {
                i64::MIN as int
            },
            None => 1,
        },
        nudge_id(e, None) == 1,
        e.payload_utf8 is None ==> nudge_id(e, Some(g)) == 1,
{
}

/// The session plays what the first player of a status reports, and knows the
/// kind of a message from its payload alone.
pub proof fn reports_are_taken_as_they_come(m: MediaStatusPayload, e: Envelope, g: GenericPayload)
    ensures
        m.status@.len() > 0 ==> player_state(Some(m)) == text_of_option(m.status@[0].player_state),
        m.status@.len() == 0 ==> player_state(Some(m)) is None,
        player_state(None) is None,
        e.payload_utf8 is Some ==> kind_of(e, Some(g)) == Some(g.msg_type@),
        e.payload_utf8 is None ==> kind_of(e, Some(g)) is None,
        kind_of(e, None) is None,
        detail_of(None) is None,
        forall|t: Tree| #[trigger] detail_of(Some(t)) == t.int_member("detailedErrorCode"@),
{
}

/// Nothing is sent before the first key frame, which sets the endpoint up; from
/// then on every frame is handed on, and every sound frame where there is sound.
pub proof fn streams_begin_with_a_key_frame(key: bool, stream: StreamState)
    ensures
        video_action(false, false) == FrameAction::Drop,
        video_action(false, true) == FrameAction::Bootstrap,
        video_action(true, key) == FrameAction::Forward,
        sound_action(None) == FrameAction::Drop,
        stream.audio ==> sound_action(Some(stream)) == FrameAction::Forward,
        !stream.audio ==> sound_action(Some(stream)) == FrameAction::Drop,
{
}

/// Segments have parts, of half a second each, only for receivers that play them.
pub proof fn only_low_latency_has_parts(low_latency: bool)
    ensures
        part_target(low_latency) is Some <==> low_latency,
        part_target(low_latency) matches Some(ms) ==> 2 * ms == 1000,
{
}

/// The address of the playlist has the scheme, the host and the port each at its
/// place, and ends with the name of the playlist.
pub proof fn playlist_address_is_taken_apart(scheme: Seq<char>, host: Seq<char>, port: u16)
    ensures
        ({
            let url = playlist_address(scheme, host, port);
            let s = scheme.len() as int;
            let h = host.len() as int;
            let d = decimal(port as nat).len() as int;
            &&& url.len() == s + 3 + h + 1 + d + 11
            &&& url.take(s) == scheme
            &&& url.subrange(s, s + 3) == seq![':', '/', '/']
            &&& url.subrange(s + 3, s + 3 + h) == host
            &&& url[s + 3 + h] == ':'
            &&& url.subrange(s + 4 + h, s + 4 + h + d) == decimal(port as nat)
            &&& url.skip(s + 4 + h + d) == "/index.m3u8"@
        }),
{
    reveal_strlit("://");
    reveal_strlit(":");
    reveal_strlit("/index.m3u8");
    assert("://"@.len() == 3 && ":"@.len() == 1 && "/index.m3u8"@.len() == 11);
    let url = playlist_address(scheme, host, port);
    let s = scheme.len() as int;
    let h = host.len() as int;
    let d = decimal(port as nat).len() as int;
    assert(url.take(s) =~= scheme);
    assert(url.subrange(s, s + 3) =~= seq![':', '/', '/']);
    assert(url.subrange(s + 3, s + 3 + h) =~= host);
    assert(url.subrange(s + 4 + h, s + 4 + h + d) =~= decimal(port as nat));
    assert(url.skip(s + 4 + h + d) =~= "/index.m3u8"@);
}

/// The protocol has its name, and as many frames of sound as of pictures wait.
pub proof fn queues_hold_as_much_of_either()
    ensures
        CHROMECAST_PROTOCOL@ == "chromecast"@,
        FRAME_QUEUE_DEPTH == 64,
        AUDIO_QUEUE_DEPTH == FRAME_QUEUE_DEPTH,
{
}

/// A ping is answered with a pong to the platform, and nothing else changes.
pub proof fn pings_are_answered(
    before: Reader,
    e: Envelope,
    parsed: ParsedPayload,
    step: ReadStep,
    after: Reader,
)
    requires
        takes_message(before, e, parsed, step, after),
        e.namespace == "urn:x-cast:com.google.cast.tp.heartbeat"@,
        kind_of(e, parsed.generic) == Some("PING"@),
    ensures
        after == before,
        step matches ReadStep::Send(m) && m@.namespace == e.namespace && m@.destination_id
            == "receiver-0"@ && m@.payload_utf8 == Some(type_json("PONG"@)),
{
}

/// A closed connection ends the session, and fails a launch that is waited for.
pub proof fn closing_ends_the_session(
    before: Reader,
    e: Envelope,
    parsed: ParsedPayload,
    step: ReadStep,
    after: Reader,
)
    requires
        takes_message(before, e, parsed, step, after),
        e.namespace == "urn:x-cast:com.google.cast.tp.connection"@,
        kind_of(e, parsed.generic) == Some("CLOSE"@),
    ensures
        step matches ReadStep::Stop(told) && (told is Some <==> before.launch_watch is Some),
        after.launch_watch is None,
        after.last_player_state == before.last_player_state,
{
    reveal_strlit("PING");
    reveal_strlit("CLOSE");
    assert("PING"@.len() == 4 && "CLOSE"@.len() == 5);
}

/// A launch is waited for until a status shows the application, and then no
/// longer; as long as it does not, the status is asked for again.
pub proof fn launches_are_waited_for(
    before: Reader,
    e: Envelope,
    parsed: ParsedPayload,
    step: ReadStep,
    after: Reader,
    app_id: String,
)
    requires
        takes_message(before, e, parsed, step, after),
        e.namespace == "urn:x-cast:com.google.cast.receiver"@,
        before.launch_watch == Some(app_id),
    ensures
        match extracted(parsed.receiver, app_id@) {
            Extracted::Found(transport, session) => {
                &&& step matches ReadStep::Launched(t, s)
                &&& t@ == transport
                &&& s@ == session
                &&& after.launch_watch is None
            },
            Extracted::Pending(_) => {
                &&& step matches ReadStep::Send(m)
                &&& m@.namespace == e.namespace
                &&& m@.destination_id == "receiver-0"@
                &&& m@.payload_utf8 == Some(
                    bare_request_json("GET_STATUS"@, nudge_id(e, parsed.generic)),
                )
                &&& after == before
            },
            Extracted::Skip => step is Continue && after == before,
        },
{
    reveal_strlit("urn:x-cast:com.google.cast.tp.connection");
    reveal_strlit("urn:x-cast:com.google.cast.tp.heartbeat");
    reveal_strlit("urn:x-cast:com.google.cast.receiver");
    reveal_strlit("urn:x-cast:com.google.cast.media");
    assert("urn:x-cast:com.google.cast.tp.connection"@.len() == 40);
    assert("urn:x-cast:com.google.cast.tp.heartbeat"@.len() == 39);
    assert("urn:x-cast:com.google.cast.receiver"@.len() == 35);
    assert("urn:x-cast:com.google.cast.media"@.len() == 32);
}

/// Once the application runs, messages of the platform change nothing.
pub proof fn running_applications_are_left_alone(
    before: Reader,
    e: Envelope,
    parsed: ParsedPayload,
    step: ReadStep,
    after: Reader,
)
    requires
        takes_message(before, e, parsed, step, after),
        e.namespace == "urn:x-cast:com.google.cast.receiver"@,
        before.launch_watch is None,
    ensures
        step is Continue,
        after == before,
{
    reveal_strlit("urn:x-cast:com.google.cast.tp.connection");
    reveal_strlit("urn:x-cast:com.google.cast.tp.heartbeat");
    reveal_strlit("urn:x-cast:com.google.cast.receiver");
    reveal_strlit("urn:x-cast:com.google.cast.media");
    assert("urn:x-cast:com.google.cast.tp.connection"@.len() == 40);
    assert("urn:x-cast:com.google.cast.tp.heartbeat"@.len() == 39);
    assert("urn:x-cast:com.google.cast.receiver"@.len() == 35);
    assert("urn:x-cast:com.google.cast.media"@.len() == 32);
}

/// The player's own messages are told apart by their type: a refusal, a status,
/// which is remembered, or nothing of interest.
pub proof fn player_messages_are_told_apart(
    before: Reader,
    e: Envelope,
    parsed: ParsedPayload,
    step: ReadStep,
    after: Reader,
    kind: Seq<char>,
)
    requires
        takes_message(before, e, parsed, step, after),
        e.namespace == "urn:x-cast:com.google.cast.media"@,
        e.payload_utf8 is Some,
        kind_of(e, parsed.generic) == Some(kind),
    ensures
        kind == "LOAD_FAILED"@ || kind == "INVALID_REQUEST"@ || kind == "INVALID_PLAYER_STATE"@
            || kind == "ERROR"@ ==> step is Rejected && after == before,
        kind == "MEDIA_STATUS"@ ==> step == ReadStep::Status(
            status_level(text_of_option(before.last_player_state), player_state(parsed.media)),
        ) && text_of_option(after.last_player_state) == player_state(parsed.media)
            && after.launch_watch == before.launch_watch,
        step is Rejected || step is Status || step is Continue,
{
    reveal_strlit("urn:x-cast:com.google.cast.tp.connection");
    reveal_strlit("urn:x-cast:com.google.cast.tp.heartbeat");
    reveal_strlit("urn:x-cast:com.google.cast.receiver");
    reveal_strlit("urn:x-cast:com.google.cast.media");
    reveal_strlit("LOAD_FAILED");
    reveal_strlit("INVALID_REQUEST");
    reveal_strlit("INVALID_PLAYER_STATE");
    reveal_strlit("ERROR");
    reveal_strlit("MEDIA_STATUS");
    assert("urn:x-cast:com.google.cast.tp.connection"@.len() == 40);
    assert("urn:x-cast:com.google.cast.tp.heartbeat"@.len() == 39);
    assert("urn:x-cast:com.google.cast.receiver"@.len() == 35);
    assert("urn:x-cast:com.google.cast.media"@.len() == 32);
    assert("LOAD_FAILED"@.len() == 11 && "INVALID_REQUEST"@.len() == 15);
    assert("INVALID_PLAYER_STATE"@.len() == 20 && "ERROR"@.len() == 5);
    assert("MEDIA_STATUS"@.len() == 12);
}

/// A session takes devices of its own protocol, one at a time: any other device
/// is refused for its protocol, and a second one by its name.
pub proof fn one_device_of_the_protocol_at_a_time(
    device: Device,
    active: bool,
    refusal: Seq<char>,
    e: FerricastError,
)
    requires
        connect_refused(device, active, refusal, e),
    ensures
        device.protocol@ != "chromecast"@ ==> e.is_protocol(refusal),
        device.protocol@ == "chromecast"@ ==> active && e.is_already_active(device.name@),
{
}

} // verus!
