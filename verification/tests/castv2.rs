use bytes::BytesMut;
use ferricast::chromecast::castv2::{CastMessage, CastV2Error, MAX_MESSAGE_SIZE};
use ferricast::chromecast::h264_params::extract_sps_pps;
use ferricast::chromecast::media_error::MediaDetailedErrorCode;
use ferricast::chromecast::messages::{
    close_message, connect_message, get_status_message, launch_message, load_media_message,
    ping_message, pong_message, stop_app_message,
};
use ferricast::chromecast::namespace;
use ferricast::chromecast::payload::{GenericPayload, HeartbeatPayload, MediaInfo};
use ferricast::chromecast::wire::{recv, recv_at_end, send, RecvStep, Side};
use ferricast::error::FerricastError;

fn parsed(msg: &CastMessage) -> Option<GenericPayload> {
    let value: serde_json::Value = serde_json::from_str(msg.payload_text()).ok()?;
    Some(GenericPayload {
        msg_type: value.get("type")?.as_str()?.to_string(),
        request_id: value.get("requestId").and_then(|v| v.as_i64()),
        extra: Vec::new(),
    })
}

#[test]
fn roundtrip_length_prefixed() {
    let msg = CastMessage::new_json(
        "sender-0",
        "receiver-0",
        namespace::HEARTBEAT,
        HeartbeatPayload::ping().to_json(),
    )
    .unwrap();

    let encoded = msg.encode_length_prefixed().unwrap();
    let mut buf = BytesMut::from(&encoded[..]);
    let decoded = CastMessage::decode_length_prefixed(&mut buf)
        .unwrap()
        .expect("should decode complete message");

    assert_eq!(msg, decoded);
    assert!(buf.is_empty());
}

#[test]
fn detailed_error_code_known_values() {
    assert_eq!(
        MediaDetailedErrorCode::from_code(301),
        MediaDetailedErrorCode::SegmentNetwork
    );
    assert_eq!(
        MediaDetailedErrorCode::from_code(104),
        MediaDetailedErrorCode::MediaSrcNotSupported
    );
    assert_eq!(
        MediaDetailedErrorCode::from_code(905),
        MediaDetailedErrorCode::LoadFailed
    );
    assert_eq!(
        MediaDetailedErrorCode::from_code(999),
        MediaDetailedErrorCode::Generic
    );
}

#[test]
fn detailed_error_code_unknown_falls_through() {
    match MediaDetailedErrorCode::from_code(42_424) {
        MediaDetailedErrorCode::Unknown(n) => assert_eq!(n, 42_424),
        other => panic!("expected Unknown(42424), got {other:?}"),
    }
}

#[test]
fn detailed_error_code_retryable_classification() {
    // Network-class errors are retryable: a fresh LOAD often recovers them.
    assert!(MediaDetailedErrorCode::SegmentNetwork.is_retryable());
    assert!(MediaDetailedErrorCode::MediaNetwork.is_retryable());
    assert!(MediaDetailedErrorCode::LoadFailed.is_retryable());
    // Decoder-class errors are not: a retry sends the same stream.
    assert!(!MediaDetailedErrorCode::MediaSrcNotSupported.is_retryable());
    assert!(!MediaDetailedErrorCode::MediaDecode.is_retryable());
}

#[test]
fn incomplete_frame_returns_none() {
    let msg = ping_message().unwrap();
    let encoded = msg.encode_length_prefixed().unwrap();

    let half = encoded.len() / 2;
    let mut buf = BytesMut::from(&encoded[..half]);
    let result = CastMessage::decode_length_prefixed(&mut buf).unwrap();
    assert!(result.is_none());
}

#[test]
fn message_type_extraction() {
    let msg = ping_message().unwrap();
    assert_eq!(msg.message_type(parsed(&msg).as_ref()).as_deref(), Some("PING"));
}

#[test]
fn message_type_needs_a_readable_payload() {
    let msg = CastMessage::new_json("a", "b", "c", "not json".to_string()).unwrap();
    assert_eq!(msg.message_type(parsed(&msg).as_ref()), None);
}

#[test]
fn extracts_sps_pps_from_idr() {
    // SPS (type 7), PPS (type 8), IDR slice (type 5), all prefixed with 4-byte
    // start codes.
    let stream = [
        0, 0, 0, 1, 0x67, 0x42, 0x00, 0x1e, // SPS
        0, 0, 0, 1, 0x68, 0xce, 0x3c, 0x80, // PPS
        0, 0, 0, 1, 0x65, 0x88, 0x84, 0x00, // IDR
    ];
    let out = extract_sps_pps(&stream);
    let expected = [
        0, 0, 0, 1, 0x67, 0x42, 0x00, 0x1e, 0, 0, 0, 1, 0x68, 0xce, 0x3c, 0x80,
    ];
    assert_eq!(out, expected);
}

#[test]
fn empty_when_no_params() {
    let stream = [0, 0, 0, 1, 0x65, 0x88, 0x84, 0x00];
    assert!(extract_sps_pps(&stream).is_empty());
}

#[test]
fn short_start_codes_are_found_too() {
    let stream = [9, 0, 0, 1, 0x67, 1, 2, 0, 0, 1, 0x65, 3];
    assert_eq!(extract_sps_pps(&stream), vec![0, 0, 0, 1, 0x67, 1, 2]);
    assert!(extract_sps_pps(&[]).is_empty());
}

#[test]
fn messages_have_the_known_bytes() {
    let msg = CastMessage::new_binary("s", "r", "n", vec![1, 2]);
    let bytes = msg.encode_length_prefixed().unwrap();
    assert_eq!(
        bytes,
        vec![
            0, 0, 0, 17, 0x08, 0, 0x12, 1, b's', 0x1a, 1, b'r', 0x22, 1, b'n', 0x28, 1, 0x3a, 2, 1,
            2
        ]
    );
}

#[test]
fn unknown_fields_are_passed_over_and_garbage_is_refused() {
    let mut buf = BytesMut::from(&[0u8, 0, 0, 8, 0x12, 1, b's', 0x48, 5, 0x22, 1, b'n'][..]);
    let msg = CastMessage::decode_length_prefixed(&mut buf).unwrap().unwrap();
    assert_eq!(msg.source_id, "s");
    assert_eq!(msg.namespace, "n");
    assert_eq!(msg.payload_text(), "{}");
    let mut bad = BytesMut::from(&[0u8, 0, 0, 2, 0x12, 9, 7][..]);
    match CastMessage::decode_length_prefixed(&mut bad) {
        Err(CastV2Error::Decode(_)) => {}
        other => panic!("{other:?}"),
    }
    assert_eq!(&bad[..], &[7]);
}

#[test]
fn messages_that_are_too_large_are_refused() {
    let msg = CastMessage::new_binary("s", "r", "n", vec![0; MAX_MESSAGE_SIZE]);
    let text = match msg.encode_length_prefixed() {
        Err(e) => e.text(),
        Ok(_) => panic!("the message is too large"),
    };
    assert_eq!(text, "frame too large: 1048593 bytes (max 1048576)");
    match send(Side::Sender, &msg) {
        Err(FerricastError::Protocol(m)) => assert_eq!(
            m,
            "encode cast message: frame too large: 1048593 bytes (max 1048576)"
        ),
        other => panic!("{other:?}"),
    }
    let mut buf = BytesMut::from(&[0u8, 0x10, 0, 1][..]);
    match recv(Side::Receiver, &mut buf) {
        Err(FerricastError::Receiver(m)) => assert_eq!(
            m,
            "decode cast message: frame too large: 1048577 bytes (max 1048576)"
        ),
        other => panic!("{other:?}"),
    }
}

#[test]
fn error_texts() {
    assert_eq!(CastV2Error::Json("x".to_string()).text(), "json error: x");
    assert_eq!(
        CastV2Error::Incomplete { needed: 8, have: 2 }.text(),
        "incomplete frame: need 8 bytes, have 2"
    );
    assert_eq!(
        CastV2Error::Encode { required: 9, remaining: 1 }.text(),
        "protobuf encode error: failed to encode Protobuf message; insufficient buffer capacity \
         (required: 9, remaining: 1)"
    );
    assert_eq!(CastV2Error::Io("gone".to_string()).text(), "I/O error: gone");
}

#[test]
fn two_messages_leave_the_buffer_in_order() {
    let ping = send(Side::Sender, &ping_message().unwrap()).unwrap();
    let pong = send(Side::Sender, &pong_message().unwrap()).unwrap();
    let mut buf = BytesMut::new();
    buf.extend_from_slice(&ping);
    buf.extend_from_slice(&pong[..5]);
    match recv(Side::Sender, &mut buf) {
        Ok(RecvStep::Message(m)) => assert_eq!(m.payload_text(), "{\"type\":\"PING\"}"),
        _ => panic!("the first message is complete"),
    }
    assert!(matches!(recv(Side::Sender, &mut buf), Ok(RecvStep::ReadMore)));
    buf.extend_from_slice(&pong[5..]);
    match recv(Side::Sender, &mut buf) {
        Ok(RecvStep::Message(m)) => assert_eq!(m.payload_text(), "{\"type\":\"PONG\"}"),
        _ => panic!("the second message is complete"),
    }
}

#[test]
fn garbage_on_the_wire_is_reported() {
    let mut bad = BytesMut::from(&[0u8, 0, 0, 1, 0x12][..]);
    match recv(Side::Sender, &mut bad) {
        Err(FerricastError::Protocol(m)) => {
            assert!(m.starts_with("decode cast message: protobuf decode error: "), "{m}")
        }
        other => panic!("{other:?}"),
    }
}

#[test]
fn requests_have_their_payloads() {
    let text = |m: Result<CastMessage, CastV2Error>| m.unwrap().payload_text().to_string();
    assert_eq!(
        text(get_status_message(7)),
        "{\"type\":\"GET_STATUS\",\"requestId\":7}"
    );
    assert_eq!(
        text(launch_message(1, "CC1AD845")),
        "{\"type\":\"LAUNCH\",\"requestId\":1,\"appId\":\"CC1AD845\"}"
    );
    assert_eq!(
        text(stop_app_message(-2, "a\"b\n")),
        "{\"type\":\"STOP\",\"requestId\":-2,\"sessionId\":\"a\\\"b\\n\"}"
    );
    let connect = connect_message("sender-0", "web-1").unwrap();
    assert_eq!(connect.source_id, "sender-0");
    assert_eq!(connect.destination_id, "web-1");
    assert_eq!(connect.namespace, namespace::CONNECTION);
    let connect_json: serde_json::Value = serde_json::from_str(connect.payload_text()).unwrap();
    assert_eq!(connect_json["type"], "CONNECT");
    let close: serde_json::Value =
        serde_json::from_str(close_message("a", "b").unwrap().payload_text()).unwrap();
    assert_eq!(close["type"], "CLOSE");
    let media = MediaInfo {
        content_id: "http://h/\u{1}".to_string(),
        content_type: "video/mp4".to_string(),
        stream_type: Some("LIVE".to_string()),
        duration: None,
    };
    assert_eq!(
        text(load_media_message(3, "web-1", media)),
        "{\"type\":\"LOAD\",\"requestId\":3,\"media\":{\"contentId\":\"http://h/\\u0001\",\
         \"contentType\":\"video/mp4\",\"streamType\":\"LIVE\"},\"autoplay\":true,\
         \"currentTime\":0.0}"
    );
}

#[test]
fn error_codes_are_read_back() {
    for code in [100, 101, 102, 103, 104, 301, 905, 999, -5, 0] {
        assert_eq!(MediaDetailedErrorCode::from_code(code).code(), code);
    }
}

#[test]
fn streams_end_between_messages() {
    let mut empty = BytesMut::new();
    assert!(matches!(recv_at_end(Side::Sender, &mut empty), Ok(None)));
    let mut part = BytesMut::from(&[0u8, 0, 0, 5, 1][..]);
    match recv_at_end(Side::Sender, &mut part) {
        Err(FerricastError::Connection(m)) => {
            assert_eq!(m, "read: connection closed within a message")
        }
        other => panic!("{other:?}"),
    }
    assert_eq!(part.len(), 5);
    match recv_at_end(Side::Receiver, &mut part) {
        Err(FerricastError::Receiver(m)) => {
            assert_eq!(m, "read: connection closed within a message")
        }
        other => panic!("{other:?}"),
    }
    let msg = CastMessage::new_json("a", "b", "c", "{}".to_string()).unwrap();
    let mut whole = BytesMut::from(&send(Side::Sender, &msg).unwrap()[..]);
    match recv_at_end(Side::Sender, &mut whole) {
        Ok(Some(m)) => assert_eq!(m.payload_text(), "{}"),
        other => panic!("{other:?}"),
    }
    assert!(whole.is_empty());
}

#[test]
fn extracted_sets_are_extracted_again() {
    let stream = [
        9, 0, 0, 1, 0x67, 1, 0, 0, 0, 0, 1, 0x65, 5, 0, 0, 0, 1, 0, 0, 1, 0x68, 2, 0, 0, 0,
    ];
    let out = extract_sps_pps(&stream);
    assert_eq!(out, vec![0, 0, 0, 1, 0x67, 1, 0, 0, 0, 0, 1, 0x68, 2, 0, 0, 0]);
    assert_eq!(extract_sps_pps(&out), out);
}
