//! Mirroring a screen: the offer of streams, the receiver's answer, and what
//! its messages lead to.

use vstd::prelude::*;
use vstd::string::*;

use crate::chromecast::castv2::{json_envelope, CastMessage, Envelope};
use crate::chromecast::json::{
    has_member, int_entry, items_of, lemma_has_member, list, list_text, members_of, object, object_text, quoted, raw_entry,
    text_entry, text_of_option, Member,
};
use crate::chromecast::launch::{
    closing, closing_messages, envelopes, extract_app_ids, extracted, Extracted,
    NEXT_REQUEST_ID,
};
use crate::chromecast::messages::{
    get_status_message, pong_message, to_platform, DEFAULT_SENDER_ID,
};
use crate::chromecast::mirror_stream::{
    after_audio, after_video, audio_packet, bytes_of, fresh_stream, video_packets, MirrorStream,
    StreamKeys,
};
use crate::chromecast::namespace;
use crate::chromecast::payload::{
    bare_request_json, type_json, GenericPayload, ReceiverStatusPayload,
};
use crate::chromecast::rtp::{
    AUDIO_CLOCK_RATE, AUDIO_RTP_PAYLOAD_TYPE, VIDEO_CLOCK_RATE, VIDEO_RTP_PAYLOAD_TYPE,
};
use crate::chromecast::session::{connect_refused, kind_of, CHROMECAST_PROTOCOL};
use crate::device::Device;
use crate::error::FerricastError;
use crate::media::{
    audio_codec_name, AudioCodec, AudioFrame, AudioStreamConfig, Codec, EncodedFrame,
    StreamConfig,
};
use crate::text::{
    debug_spelling, debug_text, decimal, decimal_text, hex_lower, hex_spells_the_bytes, hex_text, join2,
    signed_decimal, spells_bytes, str_eq,
};

verus! {

/// What mirroring calls itself where a codec is refused.
pub const MIRROR_PROTOCOL: &'static str = "chromecast-mirror";

/// The number of the one offer of a session.
pub const OFFER_SEQ_NUM: i64 = 1;

/// The delay that is suggested to the receiver, in milliseconds.
pub const TARGET_DELAY_MS: i64 = 400;

/// What a stream of either kind says first.
pub open spec fn stream_members(
    kind: Seq<char>,
    index: int,
    codec: Seq<char>,
    payload_type: int,
    keys: StreamKeys,
    clock_rate: nat,
) -> Seq<Member> {
    seq![
        ("type"@, quoted(kind)),
        ("index"@, signed_decimal(index)),
        ("codecName"@, quoted(codec)),
        ("rtpProfile"@, quoted("cast"@)),
        ("rtpPayloadType"@, signed_decimal(payload_type)),
        ("ssrc"@, signed_decimal(keys.ssrc as int)),
        ("aesKey"@, quoted(hex_lower(keys.aes_key@))),
        ("aesIvMask"@, quoted(hex_lower(keys.aes_iv_mask@))),
        ("timeBase"@, quoted("1/"@ + decimal(clock_rate))),
        ("targetDelay"@, signed_decimal(TARGET_DELAY_MS as int)),
    ]
}

/// The offered video.
pub open spec fn video_json(keys: StreamKeys, config: StreamConfig) -> Seq<char> {
    object(
        stream_members(
            "video_source"@,
            0,
            "h264"@,
            VIDEO_RTP_PAYLOAD_TYPE as int,
            keys,
            VIDEO_CLOCK_RATE as nat,
        ) + seq![
            (
                "resolutions"@,
                list(
                    seq![
                        object(
                            seq![
                                ("width"@, signed_decimal(config.width as int)),
                                ("height"@, signed_decimal(config.height as int)),
                            ],
                        ),
                    ],
                ),
            ),
            ("maxFrameRate"@, quoted(decimal(config.fps as nat) + "/1"@)),
            ("maxBitRate"@, signed_decimal(config.bitrate_kbps * 1000)),
            (
                "videoCodecParams"@,
                object(
                    seq![
                        ("profile"@, quoted("main"@)),
                        ("level"@, quoted("4"@)),
                        ("avc"@, object(seq![("packetizationMode"@, signed_decimal(1))])),
                    ],
                ),
            ),
        ],
    )
}

/// The offered sound.
pub open spec fn audio_json(keys: StreamKeys, audio: AudioStreamConfig) -> Seq<char> {
    object(
        stream_members(
            "audio_source"@,
            1,
            "opus"@,
            AUDIO_RTP_PAYLOAD_TYPE as int,
            keys,
            AUDIO_CLOCK_RATE as nat,
        ) + seq![
            ("channels"@, signed_decimal(audio.channels as int)),
            ("bitRate"@, signed_decimal(audio.bitrate_kbps * 1000)),
        ],
    )
}

/// The offer: the video, and the sound where the stream has any.
pub open spec fn offer_json(
    config: StreamConfig,
    video: StreamKeys,
    audio: Option<StreamKeys>,
) -> Seq<char> {
    let streams = match (config.audio, audio) {
        (Some(a), Some(k)) => seq![video_json(video, config), audio_json(k, a)],
        _ => seq![video_json(video, config)],
    };
    object(
        seq![
            ("type"@, quoted("OFFER"@)),
            ("seqNum"@, signed_decimal(OFFER_SEQ_NUM as int)),
            (
                "offer"@,
                object(
                    seq![
                        ("castMode"@, quoted("mirroring"@)),
                        ("supportedStreams"@, list(streams)),
                    ],
                ),
            ),
        ],
    )
}

fn stream_entries(
    kind: &str,
    index: i64,
    codec: &str,
    payload_type: u8,
    keys: &StreamKeys,
    clock_rate: u32,
) -> (members: Vec<(String, String)>)
    ensures
        members_of(members@) == stream_members(
            kind@,
            index as int,
            codec@,
            payload_type as int,
            *keys,
            clock_rate as nat,
        ),
{
    let mut members: Vec<(String, String)> = Vec::new();
    members.push(text_entry("type", kind));
    members.push(int_entry("index", index));
    members.push(text_entry("codecName", codec));
    members.push(text_entry("rtpProfile", "cast"));
    members.push(int_entry("rtpPayloadType", payload_type as i64));
    members.push(int_entry("ssrc", keys.ssrc as i64));
    let key: String = hex_text(keys.aes_key.as_slice());
    members.push(text_entry("aesKey", key.as_str()));
    let mask: String = hex_text(keys.aes_iv_mask.as_slice());
    members.push(text_entry("aesIvMask", mask.as_str()));
    let rate: String = decimal_text(clock_rate as u64);
    let base: String = join2("1/", rate.as_str());
    members.push(text_entry("timeBase", base.as_str()));
    members.push(int_entry("targetDelay", TARGET_DELAY_MS));
    assert(members_of(members@) =~= stream_members(
        kind@,
        index as int,
        codec@,
        payload_type as int,
        *keys,
        clock_rate as nat,
    ));
    members
}

fn video_text(keys: &StreamKeys, config: &StreamConfig) -> (text: String)
    ensures
        text@ == video_json(*keys, *config),
{
    let mut members: Vec<(String, String)> = stream_entries(
        "video_source",
        0,
        "h264",
        VIDEO_RTP_PAYLOAD_TYPE,
        keys,
        VIDEO_CLOCK_RATE,
    );
    let ghost head = members_of(members@);
    let mut size: Vec<(String, String)> = Vec::new();
    size.push(int_entry("width", config.width as i64));
    size.push(int_entry("height", config.height as i64));
    assert(members_of(size@) =~= seq![
        ("width"@, signed_decimal(config.width as int)),
        ("height"@, signed_decimal(config.height as int)),
    ]);
    let mut sizes: Vec<String> = Vec::new();
    sizes.push(object_text(&size));
    assert(items_of(sizes@) =~= seq![object(members_of(size@))]);
    members.push(raw_entry("resolutions", list_text(&sizes)));
    let mut rate: String = decimal_text(config.fps as u64);
    rate.append("/1");
    members.push(text_entry("maxFrameRate", rate.as_str()));
    members.push(int_entry("maxBitRate", config.bitrate_kbps as i64 * 1000));
    let mut avc: Vec<(String, String)> = Vec::new();
    avc.push(int_entry("packetizationMode", 1));
    assert(members_of(avc@) =~= seq![("packetizationMode"@, signed_decimal(1))]);
    let mut params: Vec<(String, String)> = Vec::new();
    params.push(text_entry("profile", "main"));
    params.push(text_entry("level", "4"));
    params.push(raw_entry("avc", object_text(&avc)));
    assert(members_of(params@) =~= seq![
        ("profile"@, quoted("main"@)),
        ("level"@, quoted("4"@)),
        ("avc"@, object(members_of(avc@))),
    ]);
    members.push(raw_entry("videoCodecParams", object_text(&params)));
    assert(members_of(members@) =~= head + seq![
        ("resolutions"@, list(items_of(sizes@))),
        ("maxFrameRate"@, quoted(decimal(config.fps as nat) + "/1"@)),
        ("maxBitRate"@, signed_decimal(config.bitrate_kbps * 1000)),
        ("videoCodecParams"@, object(members_of(params@))),
    ]);
    object_text(&members)
}

fn audio_text(keys: &StreamKeys, audio: &AudioStreamConfig) -> (text: String)
    ensures
        text@ == audio_json(*keys, *audio),
{
    let mut members: Vec<(String, String)> = stream_entries(
        "audio_source",
        1,
        "opus",
        AUDIO_RTP_PAYLOAD_TYPE,
        keys,
        AUDIO_CLOCK_RATE,
    );
    let ghost head = members_of(members@);
    members.push(int_entry("channels", audio.channels as i64));
    members.push(int_entry("bitRate", audio.bitrate_kbps as i64 * 1000));
    assert(members_of(members@) =~= head + seq![
        ("channels"@, signed_decimal(audio.channels as int)),
        ("bitRate"@, signed_decimal(audio.bitrate_kbps * 1000)),
    ]);
    object_text(&members)
}

fn offer_text(config: &StreamConfig, video: &StreamKeys, audio: &Option<StreamKeys>) -> (text:
    String)
    ensures
        text@ == offer_json(*config, *video, *audio),
{
    let mut streams: Vec<String> = Vec::new();
    streams.push(video_text(video, config));
    assert(items_of(streams@) =~= seq![video_json(*video, *config)]);
    match (&config.audio, audio) {
        (Some(a), Some(k)) => {
            streams.push(audio_text(k, a));
            assert(items_of(streams@) =~= seq![video_json(*video, *config), audio_json(*k, *a)]);
        },
        _ => {},
    }
    let mut offer: Vec<(String, String)> = Vec::new();
    offer.push(text_entry("castMode", "mirroring"));
    offer.push(raw_entry("supportedStreams", list_text(&streams)));
    assert(members_of(offer@) =~= seq![
        ("castMode"@, quoted("mirroring"@)),
        ("supportedStreams"@, list(items_of(streams@))),
    ]);
    let mut members: Vec<(String, String)> = Vec::new();
    members.push(text_entry("type", "OFFER"));
    members.push(int_entry("seqNum", OFFER_SEQ_NUM));
    members.push(raw_entry("offer", object_text(&offer)));
    assert(members_of(members@) =~= seq![
        ("type"@, quoted("OFFER"@)),
        ("seqNum"@, signed_decimal(OFFER_SEQ_NUM as int)),
        ("offer"@, object(members_of(offer@))),
    ]);
    object_text(&members)
}

/// An answer as it is written.
#[derive(Debug, PartialEq, Eq)]
pub struct AnswerEnvelope {
    pub seq_num: u32,
    pub result: String,
    pub answer: Option<AnswerBody>,
}

/// What the receiver agreed to.
#[derive(Debug, PartialEq, Eq)]
pub struct AnswerBody {
    pub udp_port: u16,
    pub send_indexes: Vec<u32>,
    pub ssrcs: Vec<u32>,
}

/// The body of an answer that was accepted.
pub open spec fn accepted_answer(
    e: Envelope,
    parsed: Result<AnswerEnvelope, String>,
) -> Option<AnswerBody> {
    match parsed {
        Ok(a) => if e.payload_utf8 is Some && a.result@ == "ok"@ {
            a.answer
        } else {
            None
        },
        Err(_) => None,
    }
}

/// Why an answer was refused: it needs a payload that could be read, a result
/// of success, and a body.
pub open spec fn answer_refused(
    e: Envelope,
    parsed: Result<AnswerEnvelope, String>,
    why: FerricastError,
) -> bool {
    if e.payload_utf8 is None {
        why.is_protocol("ANSWER: no payload"@)
    } else {
        match parsed {
            Err(m) => why.is_protocol("ANSWER parse: "@ + m@),
            Ok(a) => if a.result@ != "ok"@ {
                why.is_protocol("Cast Streaming ANSWER result="@ + debug_spelling(a.result@))
            } else {
                why.is_protocol("ANSWER result=ok but body absent"@)
            },
        }
    }
}

/// The answer of a message, or why there is none.
pub fn parse_answer(msg: &CastMessage, parsed: Result<AnswerEnvelope, String>) -> (out: Result<
    AnswerBody,
    FerricastError,
>)
    ensures
        match out {
            Ok(body) => accepted_answer(msg@, parsed) == Some(body),
            Err(e) => accepted_answer(msg@, parsed) is None && answer_refused(msg@, parsed, e),
        },
{
    if msg.payload_utf8.is_none() {
        return Err(FerricastError::Protocol("ANSWER: no payload".to_owned()));
    }
    match parsed {
        Err(why) => Err(FerricastError::Protocol(join2("ANSWER parse: ", why.as_str()))),
        Ok(a) => {
            if !str_eq(a.result.as_str(), "ok") {
                let shown: String = debug_text(a.result.as_str());
                return Err(
                    FerricastError::Protocol(
                        join2("Cast Streaming ANSWER result=", shown.as_str()),
                    ),
                );
            }
            match a.answer {
                Some(body) => Ok(body),
                None => Err(
                    FerricastError::Protocol("ANSWER result=ok but body absent".to_owned()),
                ),
            }
        },
    }
}

/// A connection on which the mirroring application runs.
#[derive(Debug)]
pub struct MirrorLink {
    pub transport_id: String,
    pub session_id: String,
    /// The number of the next request.
    pub request_id: i64,
    pub alive: bool,
}

/// A mirroring session.
#[derive(Debug)]
pub struct ChromecastMirrorSession {
    pub state: Option<MirrorLink>,
    pub stream: Option<MirrorStream>,
    pub cfg: Option<StreamConfig>,
    /// Whether the receiver asked for a new picture.
    pub keyframe_requested: bool,
}

impl ChromecastMirrorSession {
    /// The stream, where there is one, has its keys.
    pub open spec fn wf(self) -> bool {
        self.stream matches Some(s) ==> s.wf()
    }

    /// A session that is not connected.
    pub fn new() -> (session: Self)
        ensures
            session.wf(),
            session == (ChromecastMirrorSession {
                state: None,
                stream: None,
                cfg: None,
                keyframe_requested: false,
            }),
    {
        ChromecastMirrorSession {
            state: None,
            stream: None,
            cfg: None,
            keyframe_requested: false,
        }
    }

    /// Whether the session may connect to the device.
    pub fn connect(&self, device: &Device) -> (out: Result<(), FerricastError>)
        ensures
            match out {
                Ok(()) => device.protocol@ == CHROMECAST_PROTOCOL@ && self.state is None,
                Err(e) => connect_refused(
                    *device,
                    self.state is Some,
                    "ChromecastMirrorSession cannot connect to "@ + debug_spelling(
                        device.protocol@,
                    ),
                    e,
                ),
            },
    {
        if !str_eq(device.protocol.as_str(), CHROMECAST_PROTOCOL) {
            let shown: String = debug_text(device.protocol.as_str());
            return Err(
                FerricastError::Protocol(
                    join2("ChromecastMirrorSession cannot connect to ", shown.as_str()),
                ),
            );
        }
        if self.state.is_some() {
            return Err(FerricastError::SessionAlreadyActive(device.name.clone()));
        }
        Ok(())
    }

    /// The application runs.
    pub fn launched(&mut self, transport_id: String, session_id: String)
        ensures
            *final(self) == (ChromecastMirrorSession {
                state: Some(
                    MirrorLink {
                        transport_id,
                        session_id,
                        request_id: NEXT_REQUEST_ID,
                        alive: true,
                    },
                ),
                ..*old(self)
            }),
    {
        self.state = Some(
            MirrorLink { transport_id, session_id, request_id: NEXT_REQUEST_ID, alive: true },
        );
    }

    /// The offer of a stream, and the stream that goes with it: only while
    /// connected, only H.264, and sound only as Opus. The keys of the sound go
    /// unused where the stream has none.
    pub fn setup_stream(&mut self, config: &StreamConfig, video: StreamKeys, audio: StreamKeys) -> (
    out: Result<(CastMessage, MirrorStream), FerricastError>)
        requires
            video.wf(),
            audio.wf(),
            old(self).state is Some && config.codec == Codec::H264 ==> {
                &&& config.bitrate_kbps * 1000 <= u32::MAX
                &&& config.audio matches Some(a) ==> a.codec == AudioCodec::Opus
                    ==> a.bitrate_kbps * 1000 <= u32::MAX
            },
        ensures
            ({
                let kept = if config.audio is Some {
                    Some(audio)
                } else {
                    None
                };
                match out {
                    Ok(o) => {
                        &&& old(self).state matches Some(s)
                        &&& config.codec == Codec::H264
                        &&& config.audio matches Some(a) ==> a.codec == AudioCodec::Opus
                        &&& o.0@ == json_envelope(
                            DEFAULT_SENDER_ID@,
                            s.transport_id@,
                            namespace::WEBRTC@,
                            offer_json(*config, video, kept),
                        )
                        &&& o.1.wf()
                        &&& o.1 == fresh_stream(video, kept)
                        &&& *final(self) == (ChromecastMirrorSession {
                            cfg: Some(*config),
                            ..*old(self)
                        })
                    },
                    Err(e) => if old(self).state is None {
                        e is NoActiveSession && *final(self) == *old(self)
                    } else if config.codec != Codec::H264 {
                        e.is_unsupported(config.codec, MIRROR_PROTOCOL@) && *final(self) == *old(
                            self)
                    } else {
                        &&& config.audio matches Some(a)
                        &&& a.codec != AudioCodec::Opus
                        &&& e.is_encoder(
                            "chromecast mirror: audio must be Opus, got "@ + audio_codec_name(
                                a.codec,
                            ),
                        )
                        &&& *final(self) == (ChromecastMirrorSession {
                            cfg: Some(*config),
                            ..*old(self)
                        })
                    },
                }
            }),
    {
        let state: &MirrorLink = match &self.state {
            Some(s) => s,
            None => {
                return Err(FerricastError::NoActiveSession);
            },
        };
        if config.codec != Codec::H264 {
            return Err(
                FerricastError::UnsupportedCodec {
                    codec: config.codec,
                    protocol: MIRROR_PROTOCOL.to_owned(),
                },
            );
        }
        self.cfg = Some(*config);
        let kept: Option<StreamKeys> = match &config.audio {
            Some(a) => {
                if a.codec != AudioCodec::Opus {
                    return Err(
                        FerricastError::Encoder(
                            join2("chromecast mirror: audio must be Opus, got ", a.codec.name()),
                        ),
                    );
                }
                Some(audio)
            },
            None => None,
        };
        let json: String = offer_text(config, &video, &kept);
        let made = CastMessage::new_json(
            DEFAULT_SENDER_ID,
            state.transport_id.as_str(),
            namespace::WEBRTC,
            json,
        );
        match made {
            Ok(m) => Ok((m, MirrorStream::new(video, kept))),
            Err(_) => Err(FerricastError::NoActiveSession),
        }
    }

    /// The receiver agreed: the stream is open.
    pub fn answered(&mut self, stream: MirrorStream)
        requires
            stream.wf(),
        ensures
            final(self).wf(),
            *final(self) == (ChromecastMirrorSession {
                stream: Some(stream),
                keyframe_requested: false,
                ..*old(self)
            }),
    {
        self.stream = Some(stream);
        self.keyframe_requested = false;
    }

    /// The packets of a video frame: only H.264, and only once the stream is open.
    pub fn send_frame(&mut self, frame: &EncodedFrame, now_us: u64) -> (out: Result<
        Vec<Vec<u8>>,
        FerricastError,
    >)
        requires
            old(self).wf(),
            frame.codec == Codec::H264 && old(self).stream is Some ==> frame.timestamp_us * 9
                <= u64::MAX && now_us * 9 <= u64::MAX,
        ensures
            final(self).wf(),
            match out {
                Ok(packets) => {
                    &&& frame.codec == Codec::H264
                    &&& old(self).stream matches Some(before)
                    &&& bytes_of(packets@) == video_packets(
                        before,
                        frame.data@,
                        frame.timestamp_us,
                        now_us,
                    )
                    &&& *final(self) == (ChromecastMirrorSession {
                        stream: Some(after_video(before, bytes_of(packets@), frame.timestamp_us)),
                        ..*old(self)
                    })
                },
                Err(e) => *final(self) == *old(self) && if frame.codec != Codec::H264 {
                    e.is_unsupported(frame.codec, MIRROR_PROTOCOL@)
                } else {
                    old(self).stream is None && e.is_streaming("mirror stream not initialised"@)
                },
            },
    {
        if frame.codec != Codec::H264 {
            return Err(
                FerricastError::UnsupportedCodec {
                    codec: frame.codec,
                    protocol: MIRROR_PROTOCOL.to_owned(),
                },
            );
        }
        match self.stream.take() {
            None => Err(FerricastError::Streaming("mirror stream not initialised".to_owned())),
            Some(stream) => {
                let mut stream: MirrorStream = stream;
                let packets: Vec<Vec<u8>> = stream.send_frame(
                    frame.data.as_slice(),
                    frame.timestamp_us,
                    now_us,
                );
                self.stream = Some(stream);
                Ok(packets)
            },
        }
    }

    /// The packet of a sound frame: only Opus, and only once the stream is
    /// open; a stream without sound sends none.
    pub fn send_audio_frame(&mut self, frame: &AudioFrame, now_us: u64) -> (out: Result<
        Option<Vec<u8>>,
        FerricastError,
    >)
        requires
            old(self).wf(),
            frame.codec == AudioCodec::Opus && (old(self).stream matches Some(s)
                && s.audio is Some) ==> frame.timestamp_us * 48 <= u64::MAX && now_us * 9
                <= u64::MAX,
        ensures
            final(self).wf(),
            match out {
                Ok(packet) => {
                    &&& frame.codec == AudioCodec::Opus
                    &&& old(self).stream matches Some(before)
                    &&& match before.audio {
                        None => packet is None && *final(self) == *old(self),
                        Some(keys) => {
                            &&& packet matches Some(p)
                            &&& p@ == audio_packet(
                                before,
                                keys,
                                frame.data@,
                                frame.timestamp_us,
                                now_us,
                            )
                            &&& *final(self) == (ChromecastMirrorSession {
                                stream: Some(after_audio(before, p@, frame.timestamp_us)),
                                ..*old(self)
                            })
                        },
                    }
                },
                Err(e) => *final(self) == *old(self) && if frame.codec != AudioCodec::Opus {
                    e.is_encoder(
                        "chromecast mirror: expected Opus audio, got "@ + audio_codec_name(
                            frame.codec,
                        ),
                    )
                } else {
                    old(self).stream is None && e.is_streaming("mirror stream not initialised"@)
                },
            },
    {
        if frame.codec != AudioCodec::Opus {
            return Err(
                FerricastError::Encoder(
                    join2("chromecast mirror: expected Opus audio, got ", frame.codec.name()),
                ),
            );
        }
        match self.stream.take() {
            None => Err(FerricastError::Streaming("mirror stream not initialised".to_owned())),
            Some(stream) => {
                let mut stream: MirrorStream = stream;
                let packet: Option<Vec<u8>> = stream.send_audio(
                    frame.data.as_slice(),
                    frame.timestamp_us,
                    now_us,
                );
                self.stream = Some(stream);
                Ok(packet)
            },
        }
    }

    /// Takes a packet that came back: one that asks for a new picture of the
    /// stream is remembered.
    pub fn on_rtcp(&mut self, pkt: &[u8])
        ensures
            *final(self) == (ChromecastMirrorSession {
                keyframe_requested: old(self).keyframe_requested || (old(self).stream matches Some(
                    s,
                ) && crate::chromecast::rtp::asks_for_picture(pkt@, s.video.ssrc)),
                ..*old(self)
            }),
    {
        let asked: bool = match &self.stream {
            Some(s) => crate::chromecast::rtp::is_rtcp_pli(pkt, s.video.ssrc),
            None => false,
        };
        if asked {
            self.keyframe_requested = true;
        }
    }

    /// Whether a new picture was asked for since the last time.
    pub fn poll_keyframe_request(&mut self) -> (asked: bool)
        ensures
            asked == (old(self).stream is Some && old(self).keyframe_requested),
            *final(self) == (ChromecastMirrorSession {
                keyframe_requested: if old(self).stream is Some {
                    false
                } else {
                    old(self).keyframe_requested
                },
                ..*old(self)
            }),
    {
        if self.stream.is_none() {
            return false;
        }
        let asked: bool = self.keyframe_requested;
        self.keyframe_requested = false;
        asked
    }

    /// Ends the session: the messages to send, none where it is not connected.
    pub fn stop(&mut self) -> (messages: Vec<CastMessage>)
        ensures
            final(self).wf(),
            *final(self) == (ChromecastMirrorSession { state: None, stream: None, ..*old(self) }),
            envelopes(messages@) == match old(self).state {
                Some(s) => closing(s.request_id, s.session_id@),
                None => Seq::empty(),
            },
    {
        self.stream = None;
        match self.state.take() {
            Some(s) => closing_messages(s.request_id, s.session_id.as_str()),
            None => {
                let none: Vec<CastMessage> = Vec::new();
                assert(envelopes(none@) =~= Seq::<Envelope>::empty());
                none
            },
        }
    }

    /// Whether the session is connected and the receiver answers.
    pub fn is_alive(&self) -> (alive: bool)
        ensures
            alive == (self.state matches Some(s) && s.alive),
    {
        match &self.state {
            Some(s) => s.alive,
            None => false,
        }
    }
}

/// What a message of the receiver leads to.
#[derive(Debug)]
pub enum MirrorStep {
    /// Nothing.
    Continue,
    /// This has to be sent.
    Send(CastMessage),
    /// The application runs: its transport and its session.
    Launched(String, String),
    /// The offer was answered.
    Answer(Result<AnswerBody, FerricastError>),
    /// The session is over; who waits for the launch gets the error.
    Stop(Option<FerricastError>),
}

/// What is kept between messages of the receiver.
#[derive(Debug)]
pub struct MirrorReader {
    /// The application whose launch is waited for.
    pub launch_watch: Option<String>,
}

/// What a message of the receiver leads to.
pub open spec fn takes_message(
    before: MirrorReader,
    e: Envelope,
    generic: Option<GenericPayload>,
    receiver: Option<ReceiverStatusPayload>,
    answer: Result<AnswerEnvelope, String>,
    step: MirrorStep,
    after: MirrorReader,
) -> bool {
    let ns = e.namespace;
    let kind = kind_of(e, generic);
    let watched = text_of_option(before.launch_watch);
    if ns == namespace::HEARTBEAT@ && kind == Some("PING"@) {
        &&& step matches MirrorStep::Send(m)
        &&& m@ == to_platform(namespace::HEARTBEAT@, type_json("PONG"@))
        &&& after == before
    } else if ns == namespace::CONNECTION@ && kind == Some("CLOSE"@) {
        &&& step matches MirrorStep::Stop(told)
        &&& match told {
            Some(why) => watched is Some && why.is_connection(
                "mirror: receiver sent CLOSE from src="@ + debug_spelling(
                    e.source_id,
                ),
            ),
            None => watched is None,
        }
        &&& after.launch_watch is None
    } else if ns == namespace::RECEIVER@ {
        if watched is None {
            step is Continue && after == before
        } else {
            match extracted(receiver, watched->0) {
                Extracted::Found(t, s) => {
                    &&& step matches MirrorStep::Launched(a, b)
                    &&& a@ == t
                    &&& b@ == s
                    &&& after.launch_watch is None
                },
                _ => {
                    &&& step matches MirrorStep::Send(m)
                    &&& m@ == to_platform(
                        namespace::RECEIVER@,
                        bare_request_json("GET_STATUS"@, 2),
                    )
                    &&& after == before
                },
            }
        }
    } else if ns == namespace::WEBRTC@ && kind == Some("ANSWER"@) {
        &&& after == before
        &&& step matches MirrorStep::Answer(a)
        &&& match a {
            Ok(body) => accepted_answer(e, answer) == Some(body),
            Err(why) => accepted_answer(e, answer) is None && answer_refused(
                e,
                answer,
                why,
            ),
        }
    } else {
        step is Continue && after == before
    }
}

impl MirrorReader {
    /// The launch of `app_id` is waited for.
    pub fn new(app_id: &str) -> (reader: Self)
        ensures
            text_of_option(reader.launch_watch) == Some(app_id@),
    {
        MirrorReader { launch_watch: Some(app_id.to_owned()) }
    }

    /// Takes a message. A ping is answered, the closing of a connection ends
    /// the session. While a launch is waited for, a message of the platform
    /// either shows the application or has the status asked for again, as
    /// request two. An answer to the offer is handed on.
    pub fn on_message(
        &mut self,
        msg: &CastMessage,
        generic: Option<GenericPayload>,
        receiver: Option<&ReceiverStatusPayload>,
        answer: Result<AnswerEnvelope, String>,
    ) -> (step: MirrorStep)
        ensures
            takes_message(
                *old(self),
                msg@,
                generic,
                match receiver {
                    Some(p) => Some(*p),
                    None => None,
                },
                answer,
                step,
                *final(self),
            ),
    {
        let kind: Option<String> = msg.message_type(generic.as_ref());
        assert(text_of_option(kind) == kind_of(msg@, generic));
        let ns: &str = msg.namespace.as_str();
        if str_eq(ns, namespace::HEARTBEAT) && is_word(&kind, "PING") {
            return match pong_message() {
                Ok(m) => MirrorStep::Send(m),
                Err(_) => MirrorStep::Continue,
            };
        }
        if str_eq(ns, namespace::CONNECTION) && is_word(&kind, "CLOSE") {
            return match self.launch_watch.take() {
                Some(_) => {
                    let source: String = debug_text(msg.source_id.as_str());
                    MirrorStep::Stop(
                        Some(
                            FerricastError::Connection(
                                join2("mirror: receiver sent CLOSE from src=", source.as_str()),
                            ),
                        ),
                    )
                },
                None => MirrorStep::Stop(None),
            };
        }
        if str_eq(ns, namespace::RECEIVER) {
            let found: Option<(String, String)> = match &self.launch_watch {
                None => {
                    return MirrorStep::Continue;
                },
                Some(app_id) => extract_app_ids(receiver, app_id.as_str()),
            };
            return match found {
                Some((t, s)) => {
                    self.launch_watch = None;
                    MirrorStep::Launched(t, s)
                },
                None => match get_status_message(2) {
                    Ok(m) => MirrorStep::Send(m),
                    Err(_) => MirrorStep::Continue,
                },
            };
        }
        if str_eq(ns, namespace::WEBRTC) && is_word(&kind, "ANSWER") {
            return MirrorStep::Answer(parse_answer(msg, answer));
        }
        MirrorStep::Continue
    }

    /// The receiver closed the connection.
    pub fn on_closed(&mut self) -> (step: MirrorStep)
        ensures
            step matches MirrorStep::Stop(told) && match told {
                Some(e) => old(self).launch_watch is Some && e.is_connection(
                    "mirror: receiver closed before launch ack"@,
                ),
                None => old(self).launch_watch is None,
            },
            final(self).launch_watch is None,
    {
        match self.launch_watch.take() {
            Some(_) => MirrorStep::Stop(
                Some(
                    FerricastError::Connection(
                        "mirror: receiver closed before launch ack".to_owned(),
                    ),
                ),
            ),
            None => MirrorStep::Stop(None),
        }
    }

    /// The connection failed.
    pub fn on_failed(&mut self, error: FerricastError) -> (step: MirrorStep)
        ensures
            step == MirrorStep::Stop(
                if old(self).launch_watch is Some {
                    Some(error)
                } else {
                    None
                },
            ),
            final(self).launch_watch is None,
    {
        match self.launch_watch.take() {
            Some(_) => MirrorStep::Stop(Some(error)),
            None => MirrorStep::Stop(None),
        }
    }
}

fn is_word(s: &Option<String>, word: &str) -> (same: bool)
    ensures
        same == (text_of_option(*s) == Some(word@)),
{
    match s {
        Some(t) => str_eq(t.as_str(), word),
        None => false,
    }
}

/// Whether an offered stream names the number, the key and the mask of the
/// stream, its payload type and its clock: what a receiver needs to read the
/// packets.
#[verifier::opaque]
pub open spec fn opens_the_packets(
    offered: Seq<char>,
    keys: StreamKeys,
    payload_type: int,
    clock_rate: nat,
) -> bool {
    &&& has_member(offered, "ssrc"@, signed_decimal(keys.ssrc as int))
    &&& has_member(offered, "rtpPayloadType"@, signed_decimal(payload_type))
    &&& has_member(offered, "timeBase"@, quoted("1/"@ + decimal(clock_rate)))
    &&& exists|key: Seq<char>| #[trigger]
        spells_bytes(key, keys.aes_key@) && has_member(offered, "aesKey"@, quoted(key))
    &&& exists|mask: Seq<char>| #[trigger]
        spells_bytes(mask, keys.aes_iv_mask@) && has_member(offered, "aesIvMask"@, quoted(mask))
}

proof fn lemma_stream_members(
    kind: Seq<char>,
    index: int,
    codec: Seq<char>,
    payload_type: int,
    keys: StreamKeys,
    clock_rate: nat,
    more: Seq<Member>,
)
    ensures
        ({
            let text = object(
                stream_members(kind, index, codec, payload_type, keys, clock_rate) + more,
            );
            &&& opens_the_packets(text, keys, payload_type, clock_rate)
            &&& has_member(text, "type"@, quoted(kind))
            &&& has_member(text, "index"@, signed_decimal(index))
            &&& has_member(text, "codecName"@, quoted(codec))
            &&& has_member(text, "rtpProfile"@, quoted("cast"@))
            &&& has_member(text, "targetDelay"@, signed_decimal(400))
            &&& forall|i: int|
                0 <= i < more.len() ==> has_member(text, (#[trigger] more[i]).0, more[i].1)
        }),
{
    reveal(opens_the_packets);
    let first = stream_members(kind, index, codec, payload_type, keys, clock_rate);
    let all = first + more;
    assert forall|i: int| 0 <= i < first.len() implies has_member(
        object(all),
        (#[trigger] first[i]).0,
        first[i].1,
    ) by {
        assert(all[i] == first[i]);
        lemma_has_member(all, i);
    }
    assert forall|i: int| 0 <= i < more.len() implies has_member(
        object(all),
        (#[trigger] more[i]).0,
        more[i].1,
    ) by {
        assert(all[first.len() + i] == more[i]);
        lemma_has_member(all, first.len() + i);
    }
    hex_spells_the_bytes(keys.aes_key@);
    hex_spells_the_bytes(keys.aes_iv_mask@);
    assert(first[0] == ("type"@, quoted(kind)));
    assert(first[1] == ("index"@, signed_decimal(index)));
    assert(first[2] == ("codecName"@, quoted(codec)));
    assert(first[3] == ("rtpProfile"@, quoted("cast"@)));
    assert(first[4] == ("rtpPayloadType"@, signed_decimal(payload_type)));
    assert(first[5] == ("ssrc"@, signed_decimal(keys.ssrc as int)));
    assert(first[6] == ("aesKey"@, quoted(hex_lower(keys.aes_key@))));
    assert(first[7] == ("aesIvMask"@, quoted(hex_lower(keys.aes_iv_mask@))));
    assert(first[8] == ("timeBase"@, quoted("1/"@ + decimal(clock_rate))));
    assert(first[9] == ("targetDelay"@, signed_decimal(400)));
}

/// The offered video is that of the stream: its keys and numbers, H.264 in the
/// size, at the rate and within the bit rate that were set up.
pub proof fn offered_video_is_the_streams(keys: StreamKeys, config: StreamConfig)
    ensures
        ({
            let text = video_json(keys, config);
            &&& opens_the_packets(text, keys, 96, 90_000)
            &&& has_member(text, "type"@, quoted("video_source"@))
            &&& has_member(text, "index"@, signed_decimal(0))
            &&& has_member(text, "codecName"@, quoted("h264"@))
            &&& has_member(text, "rtpProfile"@, quoted("cast"@))
            &&& has_member(text, "targetDelay"@, signed_decimal(400))
            &&& has_member(text, "maxFrameRate"@, quoted(decimal(config.fps as nat) + "/1"@))
            &&& has_member(text, "maxBitRate"@, signed_decimal(config.bitrate_kbps * 1000))
            &&& exists|size: Seq<char>|
                has_member(text, "resolutions"@, list(seq![size])) && #[trigger] has_member(
                    size,
                    "width"@,
                    signed_decimal(config.width as int),
                ) && has_member(size, "height"@, signed_decimal(config.height as int))
            &&& exists|params: Seq<char>, avc: Seq<char>|
                has_member(text, "videoCodecParams"@, params) && has_member(
                    params,
                    "profile"@,
                    quoted("main"@),
                ) && has_member(params, "level"@, quoted("4"@)) && #[trigger] has_member(
                    params,
                    "avc"@,
                    avc,
                ) && has_member(avc, "packetizationMode"@, signed_decimal(1))
        }),
{
    let text = video_json(keys, config);
    let size = seq![
        ("width"@, signed_decimal(config.width as int)),
        ("height"@, signed_decimal(config.height as int)),
    ];
    let avc = seq![("packetizationMode"@, signed_decimal(1))];
    let params = seq![
        ("profile"@, quoted("main"@)),
        ("level"@, quoted("4"@)),
        ("avc"@, object(avc)),
    ];
    let more = seq![
        ("resolutions"@, list(seq![object(size)])),
        ("maxFrameRate"@, quoted(decimal(config.fps as nat) + "/1"@)),
        ("maxBitRate"@, signed_decimal(config.bitrate_kbps * 1000)),
        ("videoCodecParams"@, object(params)),
    ];
    lemma_stream_members("video_source"@, 0, "h264"@, 96, keys, 90_000, more);
    assert(text == object(
        stream_members("video_source"@, 0, "h264"@, 96, keys, 90_000) + more,
    ));
    assert(has_member(text, more[0].0, more[0].1));
    assert(has_member(text, more[1].0, more[1].1));
    assert(has_member(text, more[2].0, more[2].1));
    assert(has_member(text, more[3].0, more[3].1));
    lemma_has_member(size, 0);
    lemma_has_member(size, 1);
    lemma_has_member(avc, 0);
    lemma_has_member(params, 0);
    lemma_has_member(params, 1);
    lemma_has_member(params, 2);
    assert(has_member(object(size), "width"@, signed_decimal(config.width as int)));
    assert(has_member(object(params), "avc"@, object(avc)));
}

/// The offered sound is that of the stream: its keys and numbers, Opus with the
/// channels and the bit rate that were set up.
pub proof fn offered_sound_is_the_streams(keys: StreamKeys, audio: AudioStreamConfig)
    ensures
        ({
            let text = audio_json(keys, audio);
            &&& opens_the_packets(text, keys, 97, 48_000)
            &&& has_member(text, "type"@, quoted("audio_source"@))
            &&& has_member(text, "index"@, signed_decimal(1))
            &&& has_member(text, "codecName"@, quoted("opus"@))
            &&& has_member(text, "rtpProfile"@, quoted("cast"@))
            &&& has_member(text, "targetDelay"@, signed_decimal(400))
            &&& has_member(text, "channels"@, signed_decimal(audio.channels as int))
            &&& has_member(text, "bitRate"@, signed_decimal(audio.bitrate_kbps * 1000))
        }),
{
    let more = seq![
        ("channels"@, signed_decimal(audio.channels as int)),
        ("bitRate"@, signed_decimal(audio.bitrate_kbps * 1000)),
    ];
    lemma_stream_members("audio_source"@, 1, "opus"@, 97, keys, 48_000, more);
    let text = audio_json(keys, audio);
    assert(text == object(
        stream_members("audio_source"@, 1, "opus"@, 97, keys, 48_000) + more,
    ));
    assert(has_member(text, more[0].0, more[0].1));
    assert(has_member(text, more[1].0, more[1].1));
}

/// The streams that an offer lists, where it is an offer to mirror.
#[verifier::opaque]
pub open spec fn offers_streams(text: Seq<char>, streams: Seq<Seq<char>>) -> bool {
    &&& has_member(text, "type"@, quoted("OFFER"@))
    &&& has_member(text, "seqNum"@, signed_decimal(1))
    &&& exists|body: Seq<char>|
        has_member(text, "offer"@, body) && has_member(body, "castMode"@, quoted("mirroring"@))
            && #[trigger] has_member(body, "supportedStreams"@, list(streams))
}

/// Whether the offered streams open the packets of a stream: the first those
/// of its video, the second, where there is sound, those of its sound.
pub open spec fn opens_the_stream(streams: Seq<Seq<char>>, stream: MirrorStream) -> bool {
    &&& streams.len() == if stream.audio is Some {
        2nat
    } else {
        1
    }
    &&& opens_the_packets(streams[0], stream.video, 96, 90_000)
    &&& stream.audio matches Some(keys) ==> opens_the_packets(streams[1], keys, 97, 48_000)
}

/// The keys of the sound, where a stream is set up with any.
pub open spec fn kept_keys(config: StreamConfig, audio: StreamKeys) -> Option<StreamKeys> {
    if config.audio is Some {
        Some(audio)
    } else {
        None
    }
}

/// A receiver that takes number, key and mask out of the offer can read the
/// packets of the stream that is returned beside it: the first offered stream
/// has those of its video, the second, where there is sound, those of its sound.
pub proof fn offered_keys_are_the_streams(
    config: StreamConfig,
    video: StreamKeys,
    audio: StreamKeys,
)
    ensures
        exists|streams: Seq<Seq<char>>| #[trigger]
            offers_streams(
                offer_json(config, video, kept_keys(config, audio)),
                streams,
            ) && opens_the_stream(streams, fresh_stream(video, kept_keys(config, audio))),
{
    let kept = kept_keys(config, audio);
    let streams = match (config.audio, kept) {
        (Some(a), Some(k)) => seq![video_json(video, config), audio_json(k, a)],
        _ => seq![video_json(video, config)],
    };
    lemma_video_opens(video, config);
    if let Some(a) = config.audio {
        lemma_sound_opens(audio, a);
    }
    lemma_offers(streams);
    assert(offer_json(config, video, kept) == offer_of(streams));
    let stream = fresh_stream(video, kept);
    assert(stream.video == video && stream.audio == kept);
    assert(streams.len() == if stream.audio is Some {
        2nat
    } else {
        1
    });
    assert(opens_the_packets(streams[0], stream.video, 96, 90_000));
    assert(stream.audio matches Some(keys) ==> opens_the_packets(streams[1], keys, 97, 48_000));
    assert(opens_the_stream(streams, stream));
    assert(offers_streams(offer_json(config, video, kept), streams));
}

spec fn offer_of(streams: Seq<Seq<char>>) -> Seq<char> {
    object(
        seq![
            ("type"@, quoted("OFFER"@)),
            ("seqNum"@, signed_decimal(1)),
            (
                "offer"@,
                object(
                    seq![
                        ("castMode"@, quoted("mirroring"@)),
                        ("supportedStreams"@, list(streams)),
                    ],
                ),
            ),
        ],
    )
}

proof fn lemma_offers(streams: Seq<Seq<char>>)
    ensures
        offers_streams(offer_of(streams), streams),
{
    reveal(offers_streams);
    let body = seq![
        ("castMode"@, quoted("mirroring"@)),
        ("supportedStreams"@, list(streams)),
    ];
    let all = seq![
        ("type"@, quoted("OFFER"@)),
        ("seqNum"@, signed_decimal(1)),
        ("offer"@, object(body)),
    ];
    lemma_has_member(body, 0);
    lemma_has_member(body, 1);
    lemma_has_member(all, 0);
    lemma_has_member(all, 1);
    lemma_has_member(all, 2);
    assert(has_member(object(body), "supportedStreams"@, list(streams)));
}

proof fn lemma_video_opens(keys: StreamKeys, config: StreamConfig)
    ensures
        opens_the_packets(video_json(keys, config), keys, 96, 90_000),
{
    offered_video_is_the_streams(keys, config);
}

proof fn lemma_sound_opens(keys: StreamKeys, audio: AudioStreamConfig)
    ensures
        opens_the_packets(audio_json(keys, audio), keys, 97, 48_000),
{
    offered_sound_is_the_streams(keys, audio);
}

/// An answer counts only where it reports success: any other result, and an
/// answer without its body or its payload, opens no stream.
pub proof fn only_success_opens_a_stream(e: Envelope, a: AnswerEnvelope, body: AnswerBody)
    ensures
        accepted_answer(e, Ok(a)) == Some(body) ==> a.result@ == "ok"@ && a.answer == Some(body)
            && e.payload_utf8 is Some,
        e.payload_utf8 is Some && a.result@ == "ok"@ ==> accepted_answer(e, Ok(a)) == a.answer,
        forall|m: String| #[trigger] accepted_answer(e, Err(m)) is None,
{
}

/// Offers are numbered from one, and ask for four tenths of a second of delay.
pub proof fn offers_have_the_protocols_numbers()
    ensures
        OFFER_SEQ_NUM == 1,
        TARGET_DELAY_MS * 10 == 4 * 1000,
        MIRROR_PROTOCOL@ == "chromecast-mirror"@,
{
}

/// While a launch is waited for, the status is asked for as request two until it
/// shows the application.
pub proof fn mirroring_waits_for_its_application(
    before: MirrorReader,
    e: Envelope,
    generic: Option<GenericPayload>,
    receiver: Option<ReceiverStatusPayload>,
    answer: Result<AnswerEnvelope, String>,
    step: MirrorStep,
    after: MirrorReader,
    app_id: String,
)
    requires
        takes_message(before, e, generic, receiver, answer, step, after),
        e.namespace == "urn:x-cast:com.google.cast.receiver"@,
        before.launch_watch == Some(app_id),
    ensures
        match extracted(receiver, app_id@) {
            Extracted::Found(transport, session) => {
                &&& step matches MirrorStep::Launched(t, s)
                &&& t@ == transport
                &&& s@ == session
                &&& after.launch_watch is None
            },
            _ => {
                &&& step matches MirrorStep::Send(m)
                &&& m@.namespace == e.namespace
                &&& m@.destination_id == "receiver-0"@
                &&& m@.payload_utf8 == Some(bare_request_json("GET_STATUS"@, 2))
                &&& after == before
            },
        },
{
    reveal_strlit("urn:x-cast:com.google.cast.tp.connection");
    reveal_strlit("urn:x-cast:com.google.cast.tp.heartbeat");
    reveal_strlit("urn:x-cast:com.google.cast.receiver");
    reveal_strlit("urn:x-cast:com.google.cast.media");
    assert("urn:x-cast:com.google.cast.tp.connection"@.len() == 40);
    assert("urn:x-cast:com.google.cast.tp.heartbeat"@.len() == 39);
    assert("urn:x-cast:com.google.cast.receiver"@.len() == 35);
    assert("urn:x-cast:com.google.cast.media"@.len() == 32);
}

/// A ping is answered, a closed connection ends the session, and an answer to the
/// offer is handed on as it was taken.
pub proof fn mirroring_messages_are_told_apart(
    before: MirrorReader,
    e: Envelope,
    generic: Option<GenericPayload>,
    receiver: Option<ReceiverStatusPayload>,
    answer: Result<AnswerEnvelope, String>,
    step: MirrorStep,
    after: MirrorReader,
    kind: Seq<char>,
)
    requires
        takes_message(before, e, generic, receiver, answer, step, after),
        kind_of(e, generic) == Some(kind),
    ensures
        e.namespace == "urn:x-cast:com.google.cast.tp.heartbeat"@ && kind == "PING"@ ==> {
            &&& step matches MirrorStep::Send(m)
            &&& m@.namespace == e.namespace
            &&& m@.payload_utf8 == Some(type_json("PONG"@))
            &&& after == before
        },
        e.namespace == "urn:x-cast:com.google.cast.tp.connection"@ && kind == "CLOSE"@ ==> {
            &&& step matches MirrorStep::Stop(told)
            &&& told is Some <==> before.launch_watch is Some
            &&& after.launch_watch is None
        },
        e.namespace == "urn:x-cast:com.google.cast.webrtc"@ && kind == "ANSWER"@ ==> {
            &&& step matches MirrorStep::Answer(a)
            &&& a is Ok <==> accepted_answer(e, answer) is Some
            &&& a matches Ok(body) ==> accepted_answer(e, answer) == Some(body)
            &&& after == before
        },
{
    reveal_strlit("urn:x-cast:com.google.cast.tp.connection");
    reveal_strlit("urn:x-cast:com.google.cast.tp.heartbeat");
    reveal_strlit("urn:x-cast:com.google.cast.receiver");
    reveal_strlit("urn:x-cast:com.google.cast.media");
    reveal_strlit("urn:x-cast:com.google.cast.webrtc");
    reveal_strlit("PING");
    reveal_strlit("CLOSE");
    reveal_strlit("ANSWER");
    assert("urn:x-cast:com.google.cast.tp.connection"@.len() == 40);
    assert("urn:x-cast:com.google.cast.tp.heartbeat"@.len() == 39);
    assert("urn:x-cast:com.google.cast.receiver"@.len() == 35);
    assert("urn:x-cast:com.google.cast.media"@.len() == 32);
    assert("urn:x-cast:com.google.cast.webrtc"@.len() == 33);
    assert("PING"@.len() == 4 && "CLOSE"@.len() == 5 && "ANSWER"@.len() == 6);
}

} // verus!
