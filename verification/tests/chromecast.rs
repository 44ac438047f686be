use ferricast::chromecast::castv2::CastMessage;
use ferricast::chromecast::discovery::{
    capabilities_for_lower_model, capabilities_for_model, resolve, resolve_announced,
};
use ferricast::chromecast::handler::{ChromecastEitherSession, ChromecastHandler, SetupNext};
use ferricast::chromecast::launch::{
    bump, extract_app_ids, opening_messages, try_extract_app, waited, ExtractApp, Waited,
};
use ferricast::chromecast::media_error::MediaDetailedErrorCode;
use ferricast::chromecast::messages::ping_message;
use ferricast::chromecast::mirror_stream::{MirrorStream, StreamKeys};
use ferricast::chromecast::mirroring::{
    parse_answer, AnswerBody, AnswerEnvelope, ChromecastMirrorSession, MirrorReader, MirrorStep,
};
use ferricast::chromecast::namespace;
use ferricast::chromecast::payload::{
    ApplicationInfo, GenericPayload, MediaStatus, MediaStatusPayload, ReceiverStatus,
    ReceiverStatusPayload,
};
use ferricast::chromecast::rtp::{
    abs_send_time_90khz, annexb_nal_units, audio_rtp_ts, cast_iv, cast_rtp_extension, is_rtcp_pli,
    rtcp_sr, rtp_fua, rtp_header, rtp_single_nal, system_time_ntp, video_rtp_ts,
};
use ferricast::chromecast::self_filter::SelfFilter;
use ferricast::chromecast::session::{
    handed_on, media_url, ChromecastSession, FrameAction, Handed, ParsedPayload, ReadStep, Reader,
    StatusLevel,
};
use ferricast::device::{
    uuid_text, Device, DeviceCapabilities, H264Profile, IpAddress, KnownDevices, ResolvedService,
};
use ferricast::error::FerricastError;
use ferricast::media::{
    AudioCodec, AudioFrame, AudioStreamConfig, Codec, EncodedFrame, StreamConfig,
};
use ferricast::text_map::TextMap;

fn service(pairs: &[(&str, &str)]) -> ResolvedService {
    let mut txt = TextMap::new();
    for (k, v) in pairs {
        txt.insert(k.to_string(), v.to_string());
    }
    ResolvedService {
        fullname: "Chromecast-1._googlecast._tcp.local.".to_string(),
        address: Some(0x0A00_0001),
        port: 8009,
        txt,
    }
}

fn device(protocol: &str, mirrors: bool) -> Device {
    let mut capabilities = DeviceCapabilities::default();
    capabilities.supports_cast_streaming = mirrors;
    capabilities.requires_audio = true;
    Device {
        id: 3,
        name: "Kitchen".to_string(),
        protocol: protocol.to_string(),
        model: None,
        addr: IpAddress::V4(1),
        port: 8009,
        metadata: TextMap::new(),
        capabilities,
    }
}

fn config(codec: Codec, audio: Option<AudioCodec>) -> StreamConfig {
    StreamConfig {
        codec,
        width: 1280,
        height: 720,
        fps: 30,
        bitrate_kbps: 2500,
        audio: audio.map(|codec| AudioStreamConfig {
            codec,
            channels: 2,
            bitrate_kbps: 128,
        }),
    }
}

fn frame(codec: Codec, data: &[u8], is_keyframe: bool) -> EncodedFrame {
    EncodedFrame {
        codec,
        data: data.to_vec(),
        timestamp_us: 1_000_000,
        is_keyframe,
        duration_us: None,
    }
}

fn sound(codec: AudioCodec) -> AudioFrame {
    AudioFrame {
        codec,
        data: vec![1, 2, 3],
        timestamp_us: 1_000_000,
        sample_rate: 48_000,
        channels: 2,
    }
}

fn message(ns: &str, json: &str) -> CastMessage {
    CastMessage::new_json("receiver-0", "sender-0", ns, json.to_string()).unwrap()
}

fn generic(ty: &str, request_id: Option<i64>) -> GenericPayload {
    GenericPayload {
        msg_type: ty.to_string(),
        request_id,
        extra: Vec::new(),
    }
}

fn only(ty: &str) -> ParsedPayload {
    ParsedPayload {
        generic: Some(generic(ty, None)),
        receiver: None,
        media: None,
    }
}

fn status(apps: Vec<(&str, &str, &str)>) -> ReceiverStatusPayload {
    ReceiverStatusPayload {
        msg_type: "RECEIVER_STATUS".to_string(),
        request_id: Some(2),
        status: Some(ReceiverStatus {
            applications: apps
                .into_iter()
                .map(|(id, t, s)| ApplicationInfo {
                    app_id: id.to_string(),
                    display_name: String::new(),
                    transport_id: t.to_string(),
                    session_id: s.to_string(),
                    namespaces: Vec::new(),
                    status_text: None,
                })
                .collect(),
            is_active_input: None,
            volume: None,
        }),
    }
}

#[test]
fn models_have_their_capabilities() {
    let ultra = capabilities_for_model("Chromecast Ultra", 5);
    assert_eq!(ultra.max_width, Some(3840));
    assert_eq!(ultra.max_bitrate_kbps, Some(30_000));
    assert_eq!(
        ultra.supported_codecs,
        vec![Codec::H264, Codec::Vp8, Codec::H265, Codec::Vp9]
    );
    let tv = capabilities_for_model("Google TV Streamer", 5);
    assert_eq!(tv.max_bitrate_kbps, Some(15_000));
    assert_eq!(tv.max_h264_profile, Some(H264Profile::High));
    let plain = capabilities_for_model("CHROMECAST", 0);
    assert!(plain.supports_video && plain.supports_audio && plain.requires_audio);
    assert_eq!(plain.max_fps, Some(30));
    let audio = capabilities_for_model("Chromecast Audio", 4);
    assert!(!audio.supports_video && audio.supports_audio);
    assert_eq!(audio.max_width, None);
    assert!(audio.supported_codecs.is_empty());
    let other = capabilities_for_model("Nest Hub", 4);
    assert!(!other.supports_video);
    assert_eq!(other.max_bitrate_kbps, Some(2_500));
    let unknown = capabilities_for_model("TV-BD5", 5);
    assert_eq!(unknown, capabilities_for_model("Chromecast", 5));
    assert_eq!(unknown.max_fps, Some(30));
    assert_eq!(unknown.max_bitrate_kbps, Some(2_500));
    assert!(unknown.requires_audio);
    assert_eq!(unknown.max_h264_profile, Some(H264Profile::Main));
    assert_eq!(
        capabilities_for_lower_model("chromecast ultra", 5),
        capabilities_for_model("Chromecast ULTRA", 5)
    );
    assert_ne!(
        capabilities_for_lower_model("Chromecast Ultra", 5),
        capabilities_for_model("Chromecast Ultra", 5)
    );
}

#[test]
fn receivers_are_found_under_their_identifier() {
    let mut known = KnownDevices::new();
    let own = SelfFilter::new();
    let id = "0123456789abcdef0123456789abcdef";
    let found = resolve(
        &mut known,
        &own,
        service(&[("id", id), ("fn", "TV"), ("md", "Chromecast"), ("ca", "4101")]),
        7,
    );
    let tv = found.unwrap();
    assert_eq!(tv.id, 0x0123_4567_89ab_cdef_0123_4567_89ab_cdef);
    assert_eq!(uuid_text(tv.id), "01234567-89ab-cdef-0123-456789abcdef");
    assert_eq!(tv.name, "TV");
    assert_eq!(tv.model.as_deref(), Some("Chromecast"));
    assert!(!tv.capabilities.supports_cast_streaming);
    assert_eq!(known.lost("Chromecast-1._googlecast._tcp.local."), Some(tv.id));

    let unnamed = resolve(&mut known, &own, service(&[("id", "no uuid")]), 7).unwrap();
    assert_eq!(unnamed.id, 7);
    assert_eq!(unnamed.name, "Chromecast-1._googlecast._tcp.local.");
    assert_eq!(unnamed.capabilities.max_bitrate_kbps, Some(2_500));
    let mut nowhere = service(&[]);
    nowhere.address = None;
    assert!(resolve(&mut known, &own, nowhere, 7).is_none());
}

#[test]
fn announced_identifiers_are_kept() {
    let mut known = KnownDevices::new();
    let own = SelfFilter::new();
    let tv = resolve_announced(
        &mut known,
        &own,
        service(&[("fn", "TV"), ("ca", "4")]),
        Some(11),
        "chromecast ultra",
        7,
    )
    .unwrap();
    assert_eq!(tv.id, 11);
    assert_eq!(tv.model, None);
    assert!(!tv.capabilities.supports_video);
    assert_eq!(tv.capabilities.max_bitrate_kbps, Some(30_000));
    assert_eq!(known.lost("Chromecast-1._googlecast._tcp.local."), Some(11));
}

#[test]
fn own_receivers_are_passed_over() {
    let mut known = KnownDevices::new();
    let mut own = SelfFilter::new();
    own.register("abc");
    own.register("abc");
    assert!(own.contains("abc"));
    assert!(!own.contains("abd"));
    assert!(resolve(&mut known, &own, service(&[("id", "abc")]), 7).is_none());
    own.unregister("abc");
    assert!(!own.contains("abc"));
    assert!(resolve(&mut known, &own, service(&[("id", "abc")]), 7).is_some());
}

#[test]
fn sessions_are_chosen_by_device() {
    let handler = ChromecastHandler;
    assert_eq!(handler.supported_codecs(), vec![Codec::H264, Codec::Vp8]);
    assert!(matches!(handler.create_session(), ChromecastEitherSession::Hls(_)));
    assert!(matches!(
        handler.create_session_for_device(&device("chromecast", false)),
        ChromecastEitherSession::Hls(_)
    ));
    let mut mirror = handler.create_session_for_device(&device("chromecast", true));
    mirror.connected(device("chromecast", true));
    match mirror.setup_done(Err(FerricastError::Protocol("no".to_string()))) {
        SetupNext::Failed(e) => assert_eq!(e, FerricastError::Protocol("no".to_string())),
        _ => panic!("only a timeout falls back"),
    }
    assert!(matches!(mirror.setup_done(Ok(())), SetupNext::Done));
    match mirror.setup_done(Err(FerricastError::Timeout("late".to_string()))) {
        SetupNext::FallBack(Some(d)) => assert_eq!(d.name, "Kitchen"),
        _ => panic!("a timeout falls back"),
    }
    mirror.fall_back(ChromecastSession::new());
    assert!(!mirror.is_alive());
    assert!(matches!(
        mirror.setup_done(Err(FerricastError::Timeout("late".to_string()))),
        SetupNext::Failed(FerricastError::Timeout(_))
    ));
}

#[test]
fn applications_are_looked_for() {
    let found = status(vec![("other", "a", "b"), ("cc1ad845", "web-5", "sess")]);
    assert_eq!(
        extract_app_ids(Some(&found), "CC1AD845"),
        Some(("web-5".to_string(), "sess".to_string()))
    );
    assert_eq!(
        try_extract_app(Some(&status(vec![("x", "a", "b")])), "CC1AD845"),
        ExtractApp::Pending("our app not in applications list (1 entries)".to_string())
    );
    assert_eq!(
        try_extract_app(Some(&status(vec![("CC1AD845", "", "b")])), "CC1AD845"),
        ExtractApp::Pending("app entry incomplete (transport_id='', session_id='b')".to_string())
    );
    let mut empty = status(vec![]);
    empty.status = None;
    assert_eq!(
        try_extract_app(Some(&empty), "CC1AD845"),
        ExtractApp::Skip
    );
    assert_eq!(try_extract_app(None, "CC1AD845"), ExtractApp::Skip);
}

#[test]
fn openings_and_waits() {
    let opening = opening_messages("CC1AD845");
    let namespaces: Vec<&str> = opening.iter().map(|m| m.namespace.as_str()).collect();
    assert_eq!(
        namespaces,
        vec![
            namespace::CONNECTION,
            namespace::HEARTBEAT,
            namespace::RECEIVER,
            namespace::RECEIVER
        ]
    );
    assert_eq!(bump(i64::MAX), i64::MIN);
    assert_eq!(bump(3), 4);
    assert_eq!(waited(Waited::Answer(5), "x", "y"), Ok(5));
    let exited: Waited<u8> = Waited::Exited;
    assert_eq!(waited(exited, "gone", "y"), Err(FerricastError::Connection("gone".to_string())));
    let late: Waited<u8> = Waited::TimedOut;
    assert_eq!(waited(late, "x", "late"), Err(FerricastError::Timeout("late".to_string())));
    let failed: Waited<u8> = Waited::Failed(FerricastError::NoActiveSession);
    assert_eq!(waited(failed, "x", "y"), Err(FerricastError::NoActiveSession));
}

const KEYFRAME: [u8; 24] = [
    0, 0, 0, 1, 0x67, 0x42, 0x00, 0x1e, 0, 0, 0, 1, 0x68, 0xce, 0x3c, 0x80, 0, 0, 0, 1, 0x65, 0x88,
    0x84, 0x00,
];

#[test]
fn live_sessions_bootstrap_with_a_key_frame() {
    let mut session = ChromecastSession::new();
    match session.connect(&device("airplay", false)) {
        Err(FerricastError::Protocol(m)) => {
            assert_eq!(m, "ChromecastSession cannot connect to a \"airplay\" device")
        }
        other => panic!("{other:?}"),
    }
    assert!(session.connect(&device("chromecast", false)).is_ok());
    assert_eq!(
        session.setup_stream(&config(Codec::H264, None)),
        Err(FerricastError::NoActiveSession)
    );
    assert!(matches!(session.load("u".to_string()), Err(FerricastError::NoActiveSession)));
    session.launched(
        &device("chromecast", false),
        "web-5".to_string(),
        "sess".to_string(),
        IpAddress::V4(1),
    );
    assert_eq!(
        session.connect(&device("chromecast", false)),
        Err(FerricastError::SessionAlreadyActive("Kitchen".to_string()))
    );
    match session.bootstrap_hls(&frame(Codec::H264, &KEYFRAME, true)) {
        Err(FerricastError::Streaming(m)) => assert_eq!(m, "setup_stream not called"),
        other => panic!("{other:?}"),
    }
    assert!(session.setup_stream(&config(Codec::Vp8, None)).is_err());
    assert!(session.setup_stream(&config(Codec::H264, Some(AudioCodec::Aac))).is_ok());
    assert_eq!(
        session.send_frame(&frame(Codec::H264, &KEYFRAME, false)).unwrap(),
        FrameAction::Drop
    );
    assert_eq!(
        session.send_frame(&frame(Codec::H264, &KEYFRAME, true)).unwrap(),
        FrameAction::Bootstrap
    );
    match session.bootstrap_hls(&frame(Codec::H264, &[1, 2], true)) {
        Err(FerricastError::Encoder(m)) => {
            assert_eq!(m, "first keyframe carries no SPS/PPS; cannot bootstrap HLS")
        }
        other => panic!("{other:?}"),
    }
    let bootstrap = session.bootstrap_hls(&frame(Codec::H264, &KEYFRAME, true)).unwrap();
    assert_eq!(bootstrap.parameter_sets, KEYFRAME[..16].to_vec());
    assert!(bootstrap.audio_enabled && bootstrap.inject_silent_audio);
    assert_eq!(bootstrap.part_target_ms, None);
    assert_eq!(bootstrap.target_fps, 30);
    assert_eq!(session.send_audio_frame(&sound(AudioCodec::Aac)).unwrap(), FrameAction::Drop);
    session.bootstrapped(true);
    assert_eq!(session.send_audio_frame(&sound(AudioCodec::Aac)).unwrap(), FrameAction::Forward);
    match session.send_audio_frame(&sound(AudioCodec::Opus)) {
        Err(FerricastError::Encoder(m)) => {
            assert_eq!(m, "chromecast: expected AAC audio, got Opus")
        }
        other => panic!("{other:?}"),
    }
    assert_eq!(
        session.send_frame(&frame(Codec::H264, &[], false)).unwrap(),
        FrameAction::Forward
    );
    let url = media_url("http", "10.0.0.2", 8080);
    assert_eq!(url, "http://10.0.0.2:8080/index.m3u8");
    let load = session.load(url).unwrap();
    assert_eq!(load.destination_id, "web-5");
    assert!(load.payload_text().contains("\"requestId\":3"));
    assert!(session.is_alive());
    let closing = session.stop();
    assert_eq!(closing.len(), 2);
    assert_eq!(
        closing[0].payload_text(),
        "{\"type\":\"STOP\",\"requestId\":4,\"sessionId\":\"sess\"}"
    );
    assert!(session.stop().is_empty());
    assert!(!session.is_alive());
}

#[test]
fn full_queues_drop_and_closed_ones_end() {
    assert!(handed_on(Handed::Taken, "gone").is_ok());
    assert!(handed_on(Handed::Full, "gone").is_ok());
    assert_eq!(
        handed_on(Handed::Closed, "gone"),
        Err(FerricastError::Streaming("gone".to_string()))
    );
}

#[test]
fn readers_answer_pings_and_see_the_launch() {
    let mut reader = Reader::new("CC1AD845");
    let ping = message(namespace::HEARTBEAT, "{\"type\":\"PING\"}");
    match reader.on_message(&ping, &only("PING")) {
        ReadStep::Send(m) => assert_eq!(m.payload_text(), "{\"type\":\"PONG\"}"),
        other => panic!("{other:?}"),
    }
    let msg = message(namespace::RECEIVER, "{}");
    let pending = ParsedPayload {
        generic: Some(generic("RECEIVER_STATUS", Some(9))),
        receiver: Some(status(vec![])),
        media: None,
    };
    match reader.on_message(&msg, &pending) {
        ReadStep::Send(m) => assert_eq!(
            m.payload_text(),
            "{\"type\":\"GET_STATUS\",\"requestId\":10}"
        ),
        other => panic!("{other:?}"),
    }
    let ready = ParsedPayload {
        generic: None,
        receiver: Some(status(vec![("CC1AD845", "web-5", "sess")])),
        media: None,
    };
    match reader.on_message(&msg, &ready) {
        ReadStep::Launched(t, s) => assert_eq!((t.as_str(), s.as_str()), ("web-5", "sess")),
        other => panic!("{other:?}"),
    }
    assert!(matches!(reader.on_message(&msg, &ready), ReadStep::Continue));
    assert!(matches!(reader.on_closed(), ReadStep::Stop(None)));
}

#[test]
fn readers_report_the_end_while_a_launch_is_waited_for() {
    let mut reader = Reader::new("CC1AD845");
    let close = message(namespace::CONNECTION, "{\"type\":\"CLOSE\"}");
    match reader.on_message(&close, &only("CLOSE")) {
        ReadStep::Stop(Some(FerricastError::Connection(m))) => assert_eq!(
            m,
            "receiver sent CLOSE on connection namespace from src=\"receiver-0\"; \
             payload: Some(\"{\\\"type\\\":\\\"CLOSE\\\"}\")"
        ),
        other => panic!("{other:?}"),
    }
    let mut failing = Reader::new("CC1AD845");
    match failing.on_failed(FerricastError::NoActiveSession) {
        ReadStep::Stop(Some(FerricastError::NoActiveSession)) => {}
        other => panic!("{other:?}"),
    }
    assert!(matches!(
        failing.on_failed(FerricastError::NoActiveSession),
        ReadStep::Stop(None)
    ));
}

#[test]
fn refused_media_is_explained() {
    let mut reader = Reader::new("CC1AD845");
    let refused = message(namespace::MEDIA, "{\"type\":\"LOAD_FAILED\",\"detailedErrorCode\":104}");
    match reader.on_message(&refused, &only("LOAD_FAILED")) {
        ReadStep::Rejected(d) => {
            assert_eq!(d, Some(MediaDetailedErrorCode::MediaSrcNotSupported))
        }
        other => panic!("{other:?}"),
    }
    let vague = message(namespace::MEDIA, "{\"type\":\"ERROR\",\"detailedErrorCode\":1.5}");
    assert!(matches!(
        reader.on_message(&vague, &only("ERROR")),
        ReadStep::Rejected(None)
    ));
}

#[test]
fn player_states_are_compared() {
    let mut reader = Reader::new("CC1AD845");
    let msg = message(namespace::MEDIA, "{\"type\":\"MEDIA_STATUS\"}");
    let with = |state: &str| ParsedPayload {
        generic: Some(generic("MEDIA_STATUS", None)),
        receiver: None,
        media: Some(MediaStatusPayload {
            msg_type: "MEDIA_STATUS".to_string(),
            request_id: None,
            status: vec![MediaStatus {
                media_session_id: 1,
                player_state: Some(state.to_string()),
                current_time: None,
                media: None,
                idle_reason: None,
                extended_status: None,
                live_seekable_range: None,
                supported_media_commands: None,
                playback_rate: None,
                video_info: None,
            }],
        }),
    };
    let mut level = |state: &str| match reader.on_message(&msg, &with(state)) {
        ReadStep::Status(l) => l,
        other => panic!("{other:?}"),
    };
    assert_eq!(level("BUFFERING"), StatusLevel::Warn);
    assert_eq!(level("BUFFERING"), StatusLevel::Debug);
    assert_eq!(level("PLAYING"), StatusLevel::Info);
    assert_eq!(level("IDLE"), StatusLevel::Warn);
}

#[test]
fn rtp_helpers_give_the_known_bytes() {
    assert_eq!(video_rtp_ts(1_000_000), 90_000);
    assert_eq!(audio_rtp_ts(1_000_000), 48_000);
    assert_eq!(abs_send_time_90khz(1_000), 90);
    assert_eq!(
        rtp_header(96, 0x0102, 0x0304_0506, 0x0708_090a, true, true),
        vec![0x90, 0xe0, 1, 2, 3, 4, 5, 6, 7, 8, 9, 10]
    );
    assert_eq!(cast_rtp_extension(0x0102_0304).len(), 8);
    assert_eq!(system_time_ntp(0, 500_000_000), (2_208_988_800, 0x8000_0000));
    let report = rtcp_sr(1, 2, 3, 4, 5, 6);
    assert_eq!(
        report,
        vec![
            0x80, 200, 0, 6, 0, 0, 0, 1, 0, 0, 0, 2, 0, 0, 0, 3, 0, 0, 0, 4, 0, 0, 0, 5, 0, 0, 0, 6
        ]
    );
    let pli = [0x81, 206, 0, 2, 0, 0, 0, 9, 0, 0, 0, 7];
    assert!(is_rtcp_pli(&pli, 7));
    assert!(!is_rtcp_pli(&pli, 8));
    assert!(!is_rtcp_pli(&pli[..11], 7));
    let mask: Vec<u8> = vec![0xff; 16];
    assert_eq!(cast_iv(&mask, 0, 0, 0), mask);
    assert_ne!(cast_iv(&mask, 1, 2, 3), cast_iv(&mask, 1, 2, 4));
}

#[test]
fn packets_are_encrypted() {
    let key = [0u8; 16];
    let iv = [0u8; 16];
    let nal = [0x65u8, 1, 2, 3];
    let packet = rtp_single_nal(1, 2, 3, true, &nal, &key, &iv, None);
    assert_eq!(packet.len(), 16);
    // The first block of AES-128 under a zero key and a zero counter.
    let block = [0x66, 0xe9, 0x4b, 0xd4];
    let expected: Vec<u8> = nal.iter().zip(block.iter()).map(|(a, b)| a ^ b).collect();
    assert_eq!(&packet[12..], &expected[..]);
    let first = rtp_fua(1, 2, 3, false, 0x65, &nal[1..], true, false, &key, &iv, None);
    assert_eq!(first[12] ^ block[0], 0x7c);
    assert_eq!(first[13] ^ block[1], 0x85);
}

#[test]
fn units_are_cut_at_start_codes() {
    assert_eq!(annexb_nal_units(&KEYFRAME), vec![(4, 8), (12, 16), (20, 24)]);
    assert!(annexb_nal_units(&[1, 2, 3]).is_empty());
    let stream = [5, 0, 0, 1, 0, 0, 0, 0, 1, 7, 8, 0, 0, 0, 0, 1, 9, 0, 0];
    assert_eq!(annexb_nal_units(&stream), vec![(9, 11), (16, 19)]);
}

fn keys(ssrc: u32) -> StreamKeys {
    StreamKeys {
        ssrc,
        aes_key: vec![0; 16],
        aes_iv_mask: vec![0; 16],
    }
}

#[test]
fn frames_become_packets() {
    let mut stream = MirrorStream::new(keys(1), Some(keys(2)));
    let mut data = vec![0, 0, 0, 1, 0x67, 1, 2, 3, 0, 0, 0, 1, 0x65];
    data.extend((0..3000u32).map(|i| (i % 200 + 1) as u8));
    let packets = stream.send_frame(&data, 1_000_000, 5);
    assert_eq!(packets.len(), 4);
    assert!(packets.iter().all(|p| p.len() <= 12 + 8 + 1400));
    assert_eq!(packets.iter().map(|p| p[1] >> 7).collect::<Vec<u8>>(), vec![0, 0, 0, 1]);
    assert_eq!(packets.iter().map(|p| p[3]).collect::<Vec<u8>>(), vec![0, 1, 2, 3]);
    assert_eq!(packets.iter().map(|p| p[0]).collect::<Vec<u8>>(), vec![0x90, 0x80, 0x80, 0x80]);
    assert_eq!(stream.video_pkt_count, 4);
    assert_eq!(stream.video_frame_id, 1);
    assert!(stream.send_audio(&[1, 2, 3], 1_000_000, 5).is_some());
    assert_eq!(stream.maybe_send_rtcp_sr(999_999, 10, 0).len(), 0);
    let reports = stream.maybe_send_rtcp_sr(1_000_000, 10, 0);
    assert_eq!(reports.len(), 2);
    assert_eq!(reports[0][7], 1);
    assert_eq!(reports[1][7], 2);
    let mut silent = MirrorStream::new(keys(1), None);
    assert!(silent.send_audio(&[1], 0, 0).is_none());
}

#[test]
fn packets_of_a_frame_have_their_own_counters() {
    let mut stream = MirrorStream::new(keys(1), None);
    let packets = stream.send_frame(&[0, 0, 0, 1, 0x67, 9, 0, 0, 0, 1, 0x67, 9], 0, 0);
    assert_eq!(packets.len(), 2);
    assert_ne!(packets[0][20..], packets[1][12..]);
    for (k, (packet, head)) in packets.iter().zip([20, 12]).enumerate() {
        let iv = cast_iv(&stream.video.aes_iv_mask, 1, 0, k as u16);
        let again = rtp_single_nal(0, 0, 1, false, &packet[head..], &stream.video.aes_key, &iv, None);
        assert_eq!(again[12..], [0x67, 9]);
    }
}

#[test]
fn keys_are_random() {
    let a = StreamKeys::random();
    let b = StreamKeys::random();
    assert_eq!(a.aes_key.len(), 16);
    assert_eq!(a.aes_iv_mask.len(), 16);
    assert_ne!(a.aes_key, b.aes_key);
    assert_ne!(a.aes_key, a.aes_iv_mask);
}

#[test]
fn mirroring_offers_and_streams() {
    let mut session = ChromecastMirrorSession::new();
    let cfg = config(Codec::H264, Some(AudioCodec::Opus));
    match session.setup_stream(&cfg, keys(1), keys(2)) {
        Err(e) => assert_eq!(e, FerricastError::NoActiveSession),
        Ok(_) => panic!("nothing is connected"),
    }
    let late = EncodedFrame {
        timestamp_us: u64::MAX,
        ..frame(Codec::H264, &KEYFRAME, true)
    };
    assert!(matches!(session.send_frame(&late, 0), Err(FerricastError::Streaming(_))));
    let fast = StreamConfig {
        bitrate_kbps: u32::MAX,
        ..cfg
    };
    assert!(session.setup_stream(&fast, keys(1), keys(2)).is_err());
    session.launched("web-5".to_string(), "sess".to_string());
    match session.setup_stream(&config(Codec::Vp8, None), keys(1), keys(2)) {
        Err(FerricastError::UnsupportedCodec { codec, protocol }) => {
            assert_eq!(codec, Codec::Vp8);
            assert_eq!(protocol, "chromecast-mirror");
        }
        _ => panic!("only H.264 is mirrored"),
    }
    let (offer, stream) = match session.setup_stream(&cfg, keys(1), keys(2)) {
        Ok(x) => x,
        Err(e) => panic!("{e:?}"),
    };
    assert_eq!(offer.namespace, namespace::WEBRTC);
    let json: serde_json::Value = serde_json::from_str(offer.payload_text()).unwrap();
    assert_eq!(json["type"], "OFFER");
    assert_eq!(json["offer"]["castMode"], "mirroring");
    let streams = json["offer"]["supportedStreams"].as_array().unwrap();
    assert_eq!(streams.len(), 2);
    assert_eq!(streams[0]["codecName"], "h264");
    assert_eq!(streams[0]["maxBitRate"], 2_500_000);
    assert_eq!(streams[0]["aesKey"], "00000000000000000000000000000000");
    assert_eq!(streams[1]["timeBase"], "1/48000");
    assert_eq!(streams[1]["ssrc"], 2);
    session.answered(stream);
    let sent = session.send_frame(&frame(Codec::H264, &KEYFRAME, true), 5).unwrap();
    assert_eq!(sent.len(), 3);
    assert!(session.send_audio_frame(&sound(AudioCodec::Opus), 5).unwrap().is_some());
    assert!(session.send_audio_frame(&sound(AudioCodec::Aac), 5).is_err());
    assert!(!session.poll_keyframe_request());
    session.on_rtcp(&[0x81, 206, 0, 2, 0, 0, 0, 9, 0, 0, 0, 1]);
    assert!(session.poll_keyframe_request());
    assert!(!session.poll_keyframe_request());
    assert_eq!(session.stop().len(), 2);
    assert!(!session.is_alive());
}

fn answer(result: &str, with_body: bool) -> AnswerEnvelope {
    AnswerEnvelope {
        seq_num: 1,
        result: result.to_string(),
        answer: if with_body {
            Some(AnswerBody {
                udp_port: 2344,
                send_indexes: vec![0],
                ssrcs: vec![5],
            })
        } else {
            None
        },
    }
}

#[test]
fn answers_are_checked() {
    let msg = message(namespace::WEBRTC, "{}");
    let text = |parsed: Result<AnswerEnvelope, String>| match parse_answer(&msg, parsed) {
        Err(FerricastError::Protocol(m)) => m,
        other => panic!("{other:?}"),
    };
    assert_eq!(parse_answer(&msg, Ok(answer("ok", true))).unwrap().udp_port, 2344);
    assert_eq!(text(Ok(answer("ok", false))), "ANSWER result=ok but body absent");
    assert_eq!(text(Ok(answer("error", true))), "Cast Streaming ANSWER result=\"error\"");
    assert_eq!(text(Err("bad".to_string())), "ANSWER parse: bad");
    let empty = CastMessage::new_binary("a", "b", "c", vec![]);
    match parse_answer(&empty, Ok(answer("ok", true))) {
        Err(FerricastError::Protocol(m)) => assert_eq!(m, "ANSWER: no payload"),
        other => panic!("{other:?}"),
    }
}

#[test]
fn mirror_readers_hand_answers_on() {
    let mut reader = MirrorReader::new("0F5096E8");
    let ping = ping_message().unwrap();
    let none = || Err("none".to_string());
    assert!(matches!(
        reader.on_message(&ping, Some(generic("PING", None)), None, none()),
        MirrorStep::Send(_)
    ));
    let ready = status(vec![("0F5096E8", "web-9", "sess")]);
    assert!(matches!(
        reader.on_message(
            &message(namespace::RECEIVER, "{}"),
            Some(generic("RECEIVER_STATUS", None)),
            Some(&ready),
            none()
        ),
        MirrorStep::Launched(_, _)
    ));
    match reader.on_message(
        &message(namespace::WEBRTC, "{}"),
        Some(generic("ANSWER", None)),
        None,
        Ok(answer("ok", true)),
    ) {
        MirrorStep::Answer(Ok(body)) => assert_eq!(body.ssrcs, vec![5]),
        _ => panic!("an answer is handed on"),
    }
    assert!(matches!(reader.on_closed(), MirrorStep::Stop(None)));
}
