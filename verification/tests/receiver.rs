use ferricast::chromecast::castv2::CastMessage;
use ferricast::chromecast::discovery::resolve;
use ferricast::chromecast::json::{Json, JsonNumber};
use ferricast::chromecast::namespace;
use ferricast::chromecast::receiver::advertiser::{
    announcement, pin_lan_interface, radio_address, text_records, AdvertiseInfo,
    ChromecastReceiverAdvertiser, Pin,
};
use ferricast::chromecast::receiver::control::{
    build_media_status, build_receiver_status, extract_metadata, handle, Action,
    ChromecastReceiverControl, MediaCommand, PlaybackState, SessionState, TrackSelection,
};
use ferricast::chromecast::receiver::protocol::{simple_text, ChromecastReceiver};
use ferricast::chromecast::receiver::tls::{build_identity, certificate_plan};
use ferricast::chromecast::receiver::util::{
    default_route_ipv4, detect_advertise_ips, interface_override,
};
use ferricast::chromecast::self_filter::SelfFilter;
use ferricast::device::{IpAddress, KnownDevices, ResolvedService};
use ferricast::error::FerricastError;
use ferricast::media::Codec;
use ferricast::text_map::TextMap;

fn message(ns: &str, json: &str) -> CastMessage {
    CastMessage::new_json("sender-7", "receiver-0", ns, json.to_string()).unwrap()
}

fn dispatch(control: &mut ChromecastReceiverControl, ns: &str, json: &str) -> Vec<Action> {
    match control.dispatch(&message(ns, json)) {
        Ok(actions) => actions,
        Err(e) => panic!("{e:?}"),
    }
}

fn reply(action: &Action) -> &CastMessage {
    match action {
        Action::Reply(m) => m,
        Action::Command(_) => panic!("expected a reply"),
    }
}

fn command(action: &Action) -> &MediaCommand {
    match action {
        Action::Command(c) => c,
        Action::Reply(_) => panic!("expected a command"),
    }
}

#[test]
fn pings_are_answered_at_once() {
    let mut control = ChromecastReceiverControl::new(8009);
    let actions = dispatch(&mut control, namespace::HEARTBEAT, "{\"type\":\"PING\"}");
    assert_eq!(actions.len(), 1);
    let pong = reply(&actions[0]);
    assert_eq!(pong.payload_text(), "{\"type\":\"PONG\"}");
    assert_eq!(pong.source_id, "receiver-0");
    assert_eq!(pong.destination_id, "sender-7");
    assert!(control.state.is_none());
}

#[test]
fn connections_are_silent_and_open_a_session() {
    let mut control = ChromecastReceiverControl::new(8009);
    assert!(dispatch(&mut control, namespace::CONNECTION, "{\"type\":\"CONNECT\"}").is_empty());
    let first = control.state.as_ref().unwrap();
    assert_eq!(first.sender_id, "sender-7");
    assert!(first.transport_id.starts_with("transport-"));
    assert_eq!(first.transport_id.len(), 10 + 36);
    assert_eq!(first.session_id.len(), 36);
    let transport = first.transport_id.clone();
    assert!(dispatch(&mut control, namespace::CONNECTION, "{\"type\":\"CLOSE\"}").is_empty());
    assert!(dispatch(&mut control, namespace::CONNECTION, "{\"type\":\"CONNECT\"}").is_empty());
    assert_eq!(control.state.as_ref().unwrap().transport_id, transport);
}

#[test]
fn launches_show_until_they_are_stopped() {
    let mut control = ChromecastReceiverControl::new(8009);
    let launch = dispatch(
        &mut control,
        namespace::RECEIVER,
        "{\"type\":\"LAUNCH\",\"requestId\":5,\"appId\":\"ABC\"}",
    );
    assert_eq!(launch.len(), 1);
    assert_eq!(reply(&launch[0]).source_id, "receiver-0");
    assert_eq!(reply(&launch[0]).destination_id, "sender-7");
    let json: serde_json::Value = serde_json::from_str(reply(&launch[0]).payload_text()).unwrap();
    assert_eq!(json["type"], "RECEIVER_STATUS");
    assert_eq!(json["requestId"], 5);
    assert_eq!(json["status"]["applications"].as_array().unwrap().len(), 1);
    assert_eq!(json["status"]["applications"][0]["appId"], "ABC");
    assert_ne!(json["status"]["applications"][0]["sessionId"], "");
    assert_ne!(json["status"]["applications"][0]["transportId"], "");
    assert_eq!(json["status"]["volume"]["level"], 1.0);
    let stop = dispatch(&mut control, namespace::RECEIVER, "{\"type\":\"STOP\"}");
    assert_eq!(stop.len(), 2);
    assert!(matches!(command(&stop[0]), MediaCommand::StopApp));
    let query = dispatch(&mut control, namespace::RECEIVER, "{\"type\":\"GET_STATUS\"}");
    assert_eq!(
        reply(&query[0]).payload_text(),
        "{\"requestId\":0,\"status\":{\"applications\":[],\"volume\":{\"level\":1.0,\"muted\":false}},\
         \"type\":\"RECEIVER_STATUS\"}"
    );
    let default = dispatch(&mut control, namespace::RECEIVER, "{\"type\":\"LAUNCH\"}");
    assert_eq!(default.len(), 1);
    let json: serde_json::Value = serde_json::from_str(reply(&default[0]).payload_text()).unwrap();
    assert_eq!(json["status"]["applications"][0]["appId"], "CC1AD845");
}

#[test]
fn stop_without_a_session_has_no_reply() {
    let mut control = ChromecastReceiverControl::new(8009);
    let stop = dispatch(&mut control, namespace::RECEIVER, "{\"type\":\"STOP\"}");
    assert_eq!(stop.len(), 1);
    assert!(dispatch(&mut control, namespace::MEDIA, "{\"type\":\"GET_STATUS\"}").is_empty());
}

#[test]
fn loads_are_handed_on_and_shown() {
    let mut control = ChromecastReceiverControl::new(8009);
    let actions = dispatch(
        &mut control,
        namespace::MEDIA,
        "{\"type\":\"LOAD\",\"requestId\":9,\"autoplay\":false,\"currentTime\":2.5,\
         \"media\":{\"contentId\":\"http://x/v.m3u8\",\"contentType\":\"video/mp4\",\
         \"metadata\":{\"title\":\"Film\",\"year\":1999,\"tags\":[1,\"a\"]}}}",
    );
    assert_eq!(actions.len(), 2);
    match command(&actions[0]) {
        MediaCommand::Load {
            url,
            content_type,
            start_time,
            autoplay,
            metadata,
        } => {
            assert_eq!(url, "http://x/v.m3u8");
            assert_eq!(content_type.as_deref(), Some("video/mp4"));
            assert_eq!(start_time, "2.5");
            assert!(!autoplay);
            assert_eq!(metadata.len(), 3);
            assert_eq!(metadata.get("title").map(|s| s.as_str()), Some("Film"));
            assert_eq!(metadata.get("year").map(|s| s.as_str()), Some("1999"));
            assert_eq!(metadata.get("tags").map(|s| s.as_str()), Some("[1,\"a\"]"));
        }
        _ => panic!("the load is handed on"),
    }
    assert_eq!(
        reply(&actions[1]).payload_text(),
        "{\"requestId\":9,\"status\":[{\"currentTime\":2.5,\"media\":{\"contentId\":\"http://x/v.m3u8\",\
         \"contentType\":\"video/mp4\",\"streamType\":\"BUFFERED\"},\"mediaSessionId\":1,\
         \"playerState\":\"PAUSED\",\"supportedMediaCommands\":15}],\"type\":\"MEDIA_STATUS\"}"
    );
    let query = dispatch(&mut control, namespace::MEDIA, "{\"type\":\"GET_STATUS\",\"requestId\":10}");
    assert!(reply(&query[0]).payload_text().contains("\"contentId\":\"http://x/v.m3u8\""));
    assert_eq!(reply(&query[0]).source_id, control.state.as_ref().unwrap().transport_id);
}

#[test]
fn loads_have_defaults_and_need_an_address() {
    let mut control = ChromecastReceiverControl::new(8009);
    let actions = dispatch(
        &mut control,
        namespace::MEDIA,
        "{\"type\":\"LOAD\",\"media\":{\"contentId\":\"u\"}}",
    );
    assert_eq!(
        reply(&actions[1]).payload_text(),
        "{\"requestId\":0,\"status\":[{\"currentTime\":0.0,\"media\":{\"contentId\":\"u\",\
         \"contentType\":\"application/vnd.apple.mpegurl\",\"streamType\":\"BUFFERED\"},\
         \"mediaSessionId\":1,\"playerState\":\"BUFFERING\",\"supportedMediaCommands\":15}],\
         \"type\":\"MEDIA_STATUS\"}"
    );
    let before = control.state.as_ref().unwrap().last_content_id.clone();
    match control.dispatch(&message(namespace::MEDIA, "{\"type\":\"LOAD\",\"media\":{}}")) {
        Err(FerricastError::Receiver(m)) => assert_eq!(m, "LOAD without media.contentId"),
        _ => panic!("a load needs an address"),
    }
    assert_eq!(control.state.as_ref().unwrap().last_content_id, before);
}

#[test]
fn payloads_have_to_be_json() {
    let mut control = ChromecastReceiverControl::new(8009);
    match control.dispatch(&message(namespace::MEDIA, "{")) {
        Err(FerricastError::Receiver(m)) => {
            assert_eq!(m, "payload parse: EOF while parsing an object at line 1 column 1")
        }
        _ => panic!("the payload is cut"),
    }
    let binary = CastMessage::new_binary("a", "b", namespace::MEDIA, vec![1]);
    assert!(matches!(control.dispatch(&binary), Ok(a) if a.is_empty()));
}

#[test]
fn player_requests_become_commands() {
    let mut control = ChromecastReceiverControl::new(8009);
    dispatch(&mut control, namespace::CONNECTION, "{\"type\":\"CONNECT\"}");
    for (ty, replies) in [("PLAY", 1), ("PAUSE", 1), ("STOP", 1)] {
        let actions =
            dispatch(&mut control, namespace::MEDIA, &format!("{{\"type\":\"{ty}\"}}"));
        assert_eq!(actions.len(), 1 + replies);
        let named = match command(&actions[0]) {
            MediaCommand::Play => "PLAY",
            MediaCommand::Pause => "PAUSE",
            MediaCommand::Stop => "STOP",
            _ => "other",
        };
        assert_eq!(named, ty);
    }
    let seek = dispatch(&mut control, namespace::MEDIA, "{\"type\":\"SEEK\",\"currentTime\":12}");
    match command(&seek[0]) {
        MediaCommand::Seek { position } => assert_eq!(position, "12.0"),
        _ => panic!("the seek is handed on"),
    }
    assert_eq!(dispatch(&mut control, namespace::MEDIA, "{\"type\":\"SEEK\"}").len(), 1);
    let rate = dispatch(
        &mut control,
        namespace::MEDIA,
        "{\"type\":\"SET_PLAYBACK_RATE\",\"playbackRate\":1.25}",
    );
    assert_eq!(rate.len(), 1);
    match command(&rate[0]) {
        MediaCommand::SetPlaybackRate(r) => assert_eq!(r, "1.25"),
        _ => panic!("the rate is handed on"),
    }
    let tracks = dispatch(
        &mut control,
        namespace::MEDIA,
        "{\"type\":\"EDIT_TRACKS_INFO\",\"activeTrackIds\":[3,\"x\",4.5,-1]}",
    );
    match command(&tracks[0]) {
        MediaCommand::EditTracks(t) => assert_eq!(
            *t,
            TrackSelection {
                active_track_ids: vec![3, -1]
            }
        ),
        _ => panic!("the tracks are handed on"),
    }
    let volume = dispatch(
        &mut control,
        namespace::RECEIVER,
        "{\"type\":\"SET_VOLUME\",\"volume\":{\"level\":0.5,\"muted\":true}}",
    );
    assert_eq!(volume.len(), 2);
    assert!(matches!(command(&volume[0]), MediaCommand::SetSystemVolume(l) if l == "0.5"));
    assert!(matches!(command(&volume[1]), MediaCommand::SetSystemMute(true)));
    assert!(dispatch(&mut control, "urn:x-cast:com.google.cast.tp.deviceauth", "{}").is_empty());
}

#[test]
fn states_are_reported_to_connected_senders() {
    let mut control = ChromecastReceiverControl::new(8009);
    assert!(control.report_state(&PlaybackState::Playing).is_none());
    match control.next_command(None) {
        Err(FerricastError::Receiver(m)) => assert_eq!(m, "next_command before accept"),
        _ => panic!("nobody has connected"),
    }
    let sender = control.accepted(IpAddress::V4(5));
    assert_eq!(sender.addr, IpAddress::V4(5));
    assert!(control.is_alive());
    assert!(control.report_state(&PlaybackState::Playing).is_none());
    dispatch(&mut control, namespace::CONNECTION, "{\"type\":\"CONNECT\"}");
    let told = |control: &mut ChromecastReceiverControl, state: PlaybackState| {
        control.report_state(&state).unwrap().payload_text().to_string()
    };
    assert!(told(&mut control, PlaybackState::Playing).contains("\"playerState\":\"PLAYING\""));
    assert!(told(&mut control, PlaybackState::Ended).contains("\"playerState\":\"IDLE\""));
    assert!(told(&mut control, PlaybackState::Error("x".to_string())).contains("\"IDLE\""));
    match control.next_command(None) {
        Err(FerricastError::Receiver(m)) => assert_eq!(m, "control reader closed"),
        _ => panic!("the reader has ended"),
    }
    assert!(matches!(control.next_command(Some(Ok(MediaCommand::Play))), Ok(MediaCommand::Play)));
    control.reader_ended();
    assert!(!control.is_alive());
    control.close();
    assert!(control.state.is_none());
}

#[test]
fn statuses_are_built_from_given_sessions() {
    let mut s = SessionState::new("sender-1".to_string(), 1, 2);
    assert_eq!(s.transport_id, "transport-00000000-0000-0000-0000-000000000001");
    assert_eq!(s.session_id, "00000000-0000-0000-0000-000000000002");
    s.app_id = Some("A".to_string());
    let status = build_receiver_status(&s, Some(-4), "r", "s").unwrap();
    assert_eq!(
        status.payload_text(),
        "{\"requestId\":-4,\"status\":{\"applications\":[{\"appId\":\"A\",\"displayName\":\"Ferricast\",\
         \"namespaces\":[{\"name\":\"urn:x-cast:com.google.cast.media\"},\
         {\"name\":\"urn:x-cast:com.google.cast.tp.connection\"},\
         {\"name\":\"urn:x-cast:com.google.cast.tp.heartbeat\"}],\
         \"sessionId\":\"00000000-0000-0000-0000-000000000002\",\"statusText\":\"Ready\",\
         \"transportId\":\"transport-00000000-0000-0000-0000-000000000001\"}],\
         \"volume\":{\"level\":1.0,\"muted\":false}},\"type\":\"RECEIVER_STATUS\"}"
    );
    let idle = build_media_status(&s, None);
    assert!(idle.payload_text().contains("\"media\":null"));
}

#[test]
fn given_values_are_handled() {
    let mut state: Option<SessionState> = None;
    let number = JsonNumber {
        int: Some(7),
        text: "7".to_string(),
        float: "7.0".to_string(),
    };
    let value = Json::Object(
        vec![
            ("currentTime".to_string(), Json::Number(number)),
            ("type".to_string(), Json::Text("SEEK".to_string())),
        ],
        String::new(),
    );
    let actions = handle(&mut state, &message(namespace::MEDIA, "{}"), &value, 1, 2).unwrap_or_default();
    assert_eq!(actions.len(), 1);
    assert!(matches!(command(&actions[0]), MediaCommand::Seek { position } if position == "7.0"));
    assert!(state.is_none());
    let metadata = extract_metadata(&value);
    assert_eq!(metadata.get("currentTime").map(|s| s.as_str()), Some("7"));
    assert_eq!(extract_metadata(&Json::Null).len(), 0);
}

#[test]
fn receivers_announce_themselves() {
    let receiver = ChromecastReceiver::with_id("Den".to_string(), 8010, 0xABC);
    assert_eq!(receiver.device_id, "00000000000000000000000000000abc");
    assert_eq!(simple_text(0xABC), receiver.device_id);
    let info = receiver.advertise_info();
    assert_eq!(info.capabilities.max_bitrate_kbps, Some(35_000));
    assert_eq!(receiver.supported_codecs(), vec![Codec::H264, Codec::H265]);
    let records = text_records(&info);
    let expected: Vec<(String, String)> = [
        ("id", "00000000000000000000000000000abc"),
        ("fn", "Den"),
        ("md", "Chromecast Ultra"),
        ("ca", "5"),
        ("ic", "/setup/icon.png"),
        ("ve", "05"),
        ("nf", "1"),
        ("bs", "000000000000"),
        ("st", "0"),
    ]
    .iter()
    .map(|(k, v)| (k.to_string(), v.to_string()))
    .collect();
    assert_eq!(records, expected);
    let a = announcement(&info, &Pin::Addr(IpAddress::V4(9)));
    assert_eq!(a.hostname, "00000000000000000000000000000abc-ferricast.local.");
    assert_eq!(a.address, Some(IpAddress::V4(9)));
    assert_eq!(announcement(&info, &Pin::Open).address, None);
    let new = ChromecastReceiver::default();
    assert_eq!(new.port, 8009);
    assert_eq!(new.friendly_name, "Ferricast");
    assert_eq!(new.device_id.len(), 32);
    assert_ne!(new.device_id, ChromecastReceiver::new("x".to_string()).device_id);
}

#[test]
fn callers_records_replace_or_follow() {
    let mut info: AdvertiseInfo = ChromecastReceiver::with_id("Den".to_string(), 1, 0).advertise_info();
    info.txt.insert("md".to_string(), "Mine".to_string());
    info.txt.insert("zz".to_string(), "1".to_string());
    let records = text_records(&info);
    assert_eq!(records[2], ("md".to_string(), "Mine".to_string()));
    assert_eq!(records.len(), 10);
    assert_eq!(records[9], ("zz".to_string(), "1".to_string()));
    assert_eq!(radio_address("a-b-c!0123456789xyz"), "ABC012345678");
    assert_eq!(radio_address("x"), "");
}

#[test]
fn advertisers_keep_the_self_filter() {
    let mut own = SelfFilter::new();
    let mut advertiser: ChromecastReceiverAdvertiser =
        ChromecastReceiver::with_id("Den".to_string(), 1, 0).create_advertiser();
    assert!(!advertiser.is_running());
    advertiser.started(&mut own, "full".to_string(), "dev".to_string());
    assert!(advertiser.is_running());
    assert!(own.contains("dev"));
    assert_eq!(advertiser.stop(&mut own).as_deref(), Some("full"));
    assert!(!own.contains("dev"));
    assert_eq!(advertiser.stop(&mut own), None);
}

#[test]
fn own_receivers_are_not_found() {
    let receiver = ChromecastReceiver::with_id("Den".to_string(), 1, 5);
    let mut txt = TextMap::new();
    for (k, v) in text_records(&receiver.advertise_info()) {
        txt.insert(k, v);
    }
    let mut own = SelfFilter::new();
    let mut advertiser = receiver.create_advertiser();
    advertiser.started(&mut own, "full".to_string(), receiver.device_id.clone());
    let service = ResolvedService {
        fullname: "full".to_string(),
        address: Some(1),
        port: 1,
        txt,
    };
    assert!(resolve(&mut KnownDevices::new(), &own, service, 9).is_none());
}

#[test]
fn interfaces_are_pinned() {
    assert_eq!(interface_override(Some("  eth0\n")).as_deref(), Some("eth0"));
    assert_eq!(interface_override(Some(" \t")), None);
    assert_eq!(interface_override(None), None);
    let ip = IpAddress::V4(3);
    assert_eq!(
        pin_lan_interface(Some(("3".to_string(), Some(ip))), Some(IpAddress::V4(4))),
        Pin::Addr(ip)
    );
    assert_eq!(
        pin_lan_interface(Some(("eth0".to_string(), None)), Some(ip)),
        Pin::Name("eth0".to_string())
    );
    assert_eq!(pin_lan_interface(None, Some(ip)), Pin::Addr(ip));
    assert_eq!(pin_lan_interface(None, None), Pin::Open);
}

#[test]
fn addresses_are_listed_once() {
    let lan = IpAddress::V4(0xC0A8_0001);
    let loopback = IpAddress::V4(0x7F00_0001);
    assert_eq!(detect_advertise_ips(Some(lan), Some(lan)), vec![lan, loopback]);
    assert_eq!(detect_advertise_ips(None, None), vec![loopback]);
    assert_eq!(detect_advertise_ips(Some(loopback), Some(lan)), vec![loopback, lan]);
    assert_eq!(
        detect_advertise_ips(Some(IpAddress::V6(0xfe80 << 112 | 1)), Some(lan)),
        vec![lan, loopback]
    );
    assert_eq!(default_route_ipv4(lan), Some(lan));
    assert_eq!(default_route_ipv4(IpAddress::V4(0)), None);
    assert_eq!(default_route_ipv4(IpAddress::V4(0x7F12_3456)), None);
    assert_eq!(default_route_ipv4(IpAddress::V6(77)), None);
}

#[test]
fn certificates_are_made() {
    let plan = certificate_plan(&vec!["10.0.0.1".to_string()]);
    assert_eq!(plan.names, vec!["localhost".to_string(), "10.0.0.1".to_string()]);
    assert_eq!(plan.common_name, "ferricast-receiver");
    let identity = build_identity(&vec!["10.0.0.1".to_string()]).unwrap();
    assert!(identity.certificate.der.len() > 100);
    assert!(identity.private_key.der.len() > 32);
    assert_eq!(identity.certificate.der[0], 0x30);
    assert_eq!(identity.private_key.der[0], 0x30);
    let text = String::from_utf8_lossy(&identity.certificate.der).into_owned();
    assert!(text.contains("ferricast-receiver"));
    assert!(text.contains("localhost"));
    assert_ne!(identity, build_identity(&vec!["10.0.0.1".to_string()]).unwrap());
    match build_identity(&vec!["höst".to_string()]) {
        Err(FerricastError::Receiver(m)) => assert!(m.starts_with("rcgen params: ")),
        other => panic!("{other:?}"),
    }
}

#[test]
fn fresh_identifiers_are_of_version_four() {
    let receiver = ChromecastReceiver::with_port("Den".to_string(), 9);
    let id: Vec<char> = receiver.device_id.chars().collect();
    assert_eq!(id.len(), 32);
    assert_eq!(id[12], '4');
    assert!(matches!(id[16], '8' | '9' | 'a' | 'b'));
    let sender = ChromecastReceiverControl::new(9).accepted(IpAddress::V4(1));
    assert_eq!(sender.id >> 76 & 15, 4);
    assert_eq!(sender.id >> 62 & 3, 2);
}
