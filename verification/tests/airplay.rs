use ferricast::airplay::discovery::resolve;
use ferricast::airplay::features::{
    parse_features, Features, KNOWN_FEATURES, SUPPORT_LEGACY_PAIRING, VIDEO_SUPPORTED,
};
use ferricast::airplay::handler::AirPlayHandler;
use ferricast::airplay::pin_pair::{
    accept_m2, accept_m4, hkdf, m5_message, new_client_keys, new_exchange_random, pair_pin,
    pin_pair_setup, PairAction, PairStage, PairingChallenge, SrpProof, SRP_N,
};
use ferricast::airplay::raw_pair::{raw_pair, sha512_derive_key, verify_headers, RawPair};
use ferricast::airplay::rtsp::{
    HeadStep, ResponseHead, RtspManager, RtspReqBuilder, RtspResponse, StatusLine,
};
use ferricast::airplay::session::{
    device_id_text, generate_auth_token, generate_device_id, random_string, transient_request,
    AirPlaySession, PairingMode, PairingResponse, SessionState,
};
use ferricast::airplay::tlv::{decode, encode, TLV_TYPE_PROOF, TLV_TYPE_SALT, TLV_TYPE_STATE};
use ferricast::device::{Device, DeviceCapabilities, IpAddress, KnownDevices, ResolvedService};
use ferricast::error::FerricastError;
use ferricast::media::{Codec, EncodedFrame};
use ferricast::text_map::TextMap;
use num_bigint::BigUint;
use sha2::{Digest, Sha512};

fn text_of(request: RtspReqBuilder) -> String {
    let mut all: Vec<u8> = Vec::new();
    for chunk in request.write() {
        all.extend(chunk);
    }
    String::from_utf8_lossy(&all).into_owned()
}

fn body_of(request: RtspReqBuilder) -> Vec<u8> {
    let chunks = request.write();
    if chunks.len() < 2 {
        Vec::new()
    } else {
        chunks[1].clone()
    }
}

fn reply(status: &str, content: Option<Vec<u8>>) -> RtspResponse {
    let mut head = ResponseHead::new();
    assert!(matches!(head.line(status), Ok(HeadStep::More)));
    assert!(matches!(head.line("\r\n"), Ok(HeadStep::Complete)));
    match head.finish(content) {
        Ok(r) => r,
        Err(_) => panic!("a head with a status line is complete"),
    }
}

fn ok_reply(content: Vec<u8>) -> RtspResponse {
    reply("RTSP/1.0 200 OK\r\n", Some(content))
}

fn sha(parts: &[&[u8]]) -> Vec<u8> {
    let mut hasher = Sha512::new();
    for part in parts {
        hasher.update(part);
    }
    hasher.finalize().to_vec()
}

fn padded(n: &BigUint) -> Vec<u8> {
    let bytes = n.to_bytes_be();
    let mut out = vec![0u8; 384 - bytes.len()];
    out.extend(bytes);
    out
}

fn rtsp_text(e: FerricastError) -> String {
    match e {
        FerricastError::Rtsp(m) => m,
        other => panic!("expected an RTSP error, got {other:?}"),
    }
}

fn protocol_text(e: FerricastError) -> String {
    match e {
        FerricastError::Protocol(m) => m,
        other => panic!("expected a protocol error, got {other:?}"),
    }
}

#[test]
fn requests_are_written_in_order() {
    let mut manager = RtspManager::new();
    let first = manager.builder().path("/info".to_string()).options();
    assert_eq!(text_of(first), "OPTIONS /info RTSP/1.0\r\nCSeq: 1\r\nUser-Agent: AirPlay/381.13\r\nX-Apple-HKP: 3\r\n\r\n");
    let second = manager
        .builder()
        .path("/pair-setup".to_string())
        .post()
        .content_type("application/octet-stream".to_string())
        .header(("X-Apple-PD".to_string(), "1".to_string()))
        .body(vec![b'a', b'b']);
    assert_eq!(
        text_of(second),
        "POST /pair-setup RTSP/1.0\r\nCSeq: 2\r\nContent-Type: application/octet-stream\r\n\
         User-Agent: AirPlay/381.13\r\nX-Apple-HKP: 3\r\nX-Apple-PD: 1\r\nContent-Length: 2\r\n\r\nab"
    );
}

#[test]
fn status_lines_are_read() {
    let line = StatusLine::read("RTSP/1.0 470 Connection\r\n").unwrap();
    assert_eq!(line.status_code, 470);
    assert_eq!(line.description, "Connection\r\n");
    assert_eq!(
        rtsp_text(StatusLine::read("HTTP/1.1 200 OK").unwrap_err()),
        "Invalid Rtsp version"
    );
    assert_eq!(
        rtsp_text(StatusLine::read("RTSP/1.0 abc OK").unwrap_err()),
        "Invalid status code, invalid digit found in string"
    );
    assert_eq!(
        rtsp_text(StatusLine::read("RTSP/1.0 70000 OK").unwrap_err()),
        "Invalid status code, number too large to fit in target type"
    );
    assert_eq!(
        rtsp_text(StatusLine::read("RTSP/1.0").unwrap_err()),
        "Invalid status code, cannot parse integer from empty string"
    );
}

#[test]
fn responses_are_read_line_by_line() {
    let mut head = ResponseHead::new();
    assert!(matches!(head.line("RTSP/1.0 200 OK\r\n"), Ok(HeadStep::More)));
    assert!(matches!(head.line("Content-Length: 5\r\n"), Ok(HeadStep::More)));
    assert!(matches!(head.line(" Server :  AirTunes \r\n"), Ok(HeadStep::More)));
    assert!(matches!(head.line("\r\n"), Ok(HeadStep::Complete)));
    assert_eq!(head.content_length().unwrap(), Some(5));
    let response = match head.finish(Some(b"hello".to_vec())) {
        Ok(r) => r,
        Err(e) => panic!("{e:?}"),
    };
    assert!(response.is_success());
    assert!(response.is_ok().is_ok());
    assert_eq!(response.content().unwrap(), b"hello");
    assert_eq!(response.header("Server").map(|s| s.as_str()), Some("AirTunes"));
}

#[test]
fn bad_responses_are_refused() {
    let mut head = ResponseHead::new();
    assert_eq!(head.content_length().unwrap(), None);
    assert!(matches!(head.line("RTSP/1.0 200 OK\r\n"), Ok(HeadStep::More)));
    let no_colon = match head.line("nonsense\r\n") {
        Err(e) => rtsp_text(e),
        Ok(_) => panic!("a header needs a colon"),
    };
    assert_eq!(no_colon, "Invalid RTSP header format");

    let mut wrong_length = ResponseHead::new();
    assert!(matches!(wrong_length.line("RTSP/1.0 200 OK\r\n"), Ok(HeadStep::More)));
    assert!(matches!(wrong_length.line("Content-Length: -1\r\n"), Ok(HeadStep::More)));
    assert_eq!(
        rtsp_text(wrong_length.content_length().unwrap_err()),
        "Invalid Content-Length Header"
    );

    let empty = match ResponseHead::new().finish(None) {
        Err(e) => rtsp_text(e),
        Ok(_) => panic!("a response needs a status line"),
    };
    assert_eq!(empty, "Invalid RTSP Response");

    let failed = reply("RTSP/1.0 500 Oops\r\n", None);
    assert!(!failed.is_success());
    assert_eq!(rtsp_text(failed.is_ok().unwrap_err()), "RTSP Response failed with code 500");
    assert_eq!(rtsp_text(failed.content().unwrap_err()), "RTSP Response has no content");
}

#[test]
fn tlv_fields_survive_a_round_trip() {
    let long: Vec<u8> = (0..600u32).map(|i| (i % 251) as u8).collect();
    let bytes = encode(vec![(TLV_TYPE_STATE, &[3][..]), (TLV_TYPE_SALT, &long), (9, &[])]).unwrap();
    assert_eq!(bytes.len(), 3 + (600 + 3 * 2) + 2);
    assert_eq!(&bytes[..5], &[6, 1, 3, 2, 255]);
    let fields = decode(&bytes).unwrap();
    assert_eq!(fields[&TLV_TYPE_STATE], vec![3]);
    assert_eq!(fields[&TLV_TYPE_SALT], long);
    assert_eq!(fields[&9], Vec::<u8>::new());
    assert_eq!(fields.len(), 3);
}

#[test]
fn tlv_stops_at_a_cut_field_and_reports_errors() {
    let fields = decode(&[6, 1, 2, 3, 200, 1]).unwrap();
    assert_eq!(fields.len(), 1);
    match decode(&[7, 2, 2, 10]) {
        Err(FerricastError::Tlv(m)) => {
            assert_eq!(m, "Airplay device send an error, with code [2, 10]")
        }
        other => panic!("{other:?}"),
    }
}

#[test]
fn pairing_with_a_server_that_knows_the_pin() {
    let pin = "1234";
    let n = BigUint::parse_bytes(SRP_N.as_bytes(), 16).unwrap();
    let g = BigUint::from(5u8);
    let salt: Vec<u8> = (1..=16).collect();
    let inner = sha(&[b"Pair-Setup:1234"]);
    let x = BigUint::from_bytes_be(&sha(&[&salt, &inner]));
    let v = g.modpow(&x, &n);
    let k = BigUint::from_bytes_be(&sha(&[&padded(&n), &padded(&g)]));
    let b = BigUint::from_bytes_be(&[7u8; 32]);
    let server_key = (&k * &v + g.modpow(&b, &n)) % &n;
    let server_pub = server_key.to_bytes_be();

    let (secret, public) = new_client_keys();
    let random = new_exchange_random();
    let mut manager = RtspManager::new();
    let (mut setup, m1) = pin_pair_setup(
        &mut manager,
        secret,
        public.clone(),
        pin.to_string(),
        b"AA:BB".to_vec(),
        random,
    );
    assert_eq!(body_of(m1), vec![0, 1, 0, 6, 1, 1]);

    let m2 = encode(vec![(TLV_TYPE_STATE, &[2][..]), (TLV_TYPE_SALT, &salt), (3, &server_pub)]);
    let m3 = match setup.on_reply(&mut manager, &ok_reply(m2.unwrap())) {
        PairAction::Send(r) => body_of(r),
        _ => panic!("the second message is answered"),
    };
    let fields = decode(&m3).unwrap();
    assert_eq!(fields[&TLV_TYPE_STATE], vec![3]);
    let client_pub = fields[&3].clone();
    let client_key = BigUint::from_bytes_be(&client_pub);
    let u = BigUint::from_bytes_be(&sha(&[&padded(&client_key), &padded(&server_key)]));
    let s = (&client_key * v.modpow(&u, &n)).modpow(&b, &n);
    let key = sha(&[&s.to_bytes_be()]);
    let hn = sha(&[&n.to_bytes_be()]);
    let hg = sha(&[&g.to_bytes_be()]);
    let mixed: Vec<u8> = hn.iter().zip(hg.iter()).map(|(a, b)| a ^ b).collect();
    let hi = sha(&[b"Pair-Setup"]);
    let proof = sha(&[&mixed, &hi, &salt, &client_pub, &server_pub, &key]);
    assert_eq!(fields[&TLV_TYPE_PROOF], proof);

    let server_proof = sha(&[&client_pub, &proof, &key]);
    let m4 = encode(vec![(TLV_TYPE_STATE, &[4][..]), (TLV_TYPE_PROOF, &server_proof)]).unwrap();
    let m5 = match setup.on_reply(&mut manager, &ok_reply(m4)) {
        PairAction::Send(r) => body_of(r),
        _ => panic!("the server's proof is accepted"),
    };
    let fields = decode(&m5).unwrap();
    assert_eq!(fields[&TLV_TYPE_STATE], vec![5]);
    let plain_len = (2 + 5) + (2 + 32) + (2 + 64);
    assert_eq!(fields[&5].len(), plain_len + 16);
    assert!(setup.stage == PairStage::AwaitM6);
    match setup.on_reply(&mut manager, &ok_reply(vec![6, 1, 6])) {
        PairAction::Paired => {}
        _ => panic!("the exchange is over"),
    }
}

#[test]
fn wrong_server_proof_is_refused() {
    let p = SrpProof {
        client_public: vec![1, 2, 3],
        session_key: vec![4; 64],
        proof: vec![5; 64],
    };
    let right = sha(&[&[1, 2, 3], &[5; 64], &[4; 64]]);
    let good = encode(vec![(TLV_TYPE_PROOF, &right[..])]).unwrap();
    assert!(accept_m4(&good, &p).is_ok());
    let bad = encode(vec![(TLV_TYPE_PROOF, &[0; 64][..])]).unwrap();
    assert_eq!(protocol_text(accept_m4(&bad, &p).unwrap_err()), "server proof mismatch");
    assert_eq!(protocol_text(accept_m4(&[6, 1, 4], &p).unwrap_err()), "Invalid TLV, no proof");
}

#[test]
fn incomplete_server_keys_are_refused() {
    let refusal = |m2: &[u8]| match accept_m2(m2, "1234", &[1; 32]) {
        Err(e) => e,
        Ok(_) => panic!("the message cannot be answered"),
    };
    assert_eq!(protocol_text(refusal(&[6, 1, 2])), "Invalid AirPlay Response no salt in TLV");
    assert_eq!(
        protocol_text(refusal(&[2, 1, 9])),
        "Invalid airplay Response no public key in TLV"
    );
    assert_eq!(protocol_text(refusal(&[2, 1, 9, 3, 1, 0])), "Invalid server public key");
    assert!(matches!(refusal(&[7, 1, 2]), FerricastError::Tlv(_)));
}

#[test]
fn the_first_message_is_sent_three_times() {
    let (secret, public) = new_client_keys();
    let mut manager = RtspManager::new();
    let (mut setup, _) = pin_pair_setup(
        &mut manager,
        secret,
        public,
        "0000".to_string(),
        vec![1],
        vec![1; 32],
    );
    let empty = reply("RTSP/1.0 200 OK\r\n", None);
    assert!(matches!(setup.on_reply(&mut manager, &empty), PairAction::Send(_)));
    assert!(matches!(setup.on_reply(&mut manager, &empty), PairAction::Send(_)));
    match setup.on_reply(&mut manager, &empty) {
        PairAction::Failed(e) => {
            assert_eq!(protocol_text(e), "Airplay did not send a valid response with m2")
        }
        _ => panic!("the exchange is given up"),
    }
}

#[test]
fn hkdf_gives_the_known_bytes() {
    let okm = hkdf(&[0x0b; 22], &(0..=12).collect::<Vec<u8>>(), &(0xf0..=0xf9).collect::<Vec<u8>>(), 42)
        .unwrap();
    let shown: String = okm.iter().map(|b| format!("{b:02x}")).collect();
    assert_eq!(
        shown,
        "832390086cda71fb47625bb5ceb168e4c8e26a1a16ed34d9fc7fe92c1481579338da362cb8d9f925d7cb"
    );
    assert_eq!(protocol_text(hkdf(&[1], &[2], &[3], 255 * 64 + 1).unwrap_err()), "Cannot expand HKDF");
}

#[test]
fn the_identity_is_signed_and_encrypted() {
    let p = SrpProof {
        client_public: vec![1],
        session_key: vec![4; 64],
        proof: vec![5; 64],
    };
    let (secret, public) = new_client_keys();
    let sealed = decode(&m5_message(&p, &secret, &public, b"id").unwrap()).unwrap()[&5].clone();
    let again = decode(&m5_message(&p, &secret, &public, b"id").unwrap()).unwrap()[&5].clone();
    assert_eq!(sealed, again);
    let other = decode(&m5_message(&p, &secret, &public, b"is").unwrap()).unwrap()[&5].clone();
    assert_ne!(sealed, other);
    let plain = encode(vec![(1, &b"id"[..]), (3, &public)]).unwrap();
    assert_ne!(&sealed[..plain.len()], &plain[..]);
}

#[test]
fn a_pin_is_asked_for_where_needed() {
    let mut manager = RtspManager::new();
    assert!(pair_pin(&PairingChallenge::Nothing, &mut manager).is_none());
    assert!(pair_pin(&PairingChallenge::Credential, &mut manager).is_none());
    let request = pair_pin(&PairingChallenge::Pin { digits: 4 }, &mut manager).unwrap();
    assert_eq!(text_of(request), "POST /pair-pin-start RTSP/1.0\r\nCSeq: 1\r\nUser-Agent: AirPlay/381.13\r\nX-Apple-HKP: 3\r\n\r\n");
    assert!(pair_pin(&PairingChallenge::Confirm, &mut manager).is_some());
}

#[test]
fn transient_pairing_is_asked_for() {
    let mut manager = RtspManager::new();
    assert_eq!(
        body_of(transient_request(&mut manager)),
        vec![0, 1, 0, 6, 1, 1, 0x13, 4, 0x10, 0, 0, 0]
    );
}

#[test]
fn keys_are_derived_from_hashes() {
    assert_eq!(sha512_derive_key("Pair-Verify-AES-Key", &[9; 32]), sha(&[
        b"Pair-Verify-AES-Key",
        &[9; 32]
    ])[..16].to_vec());
}

#[test]
fn raw_pairing_reads_the_server_signature() {
    let mut manager = RtspManager::new();
    let (pair, first) = raw_pair(&mut manager, vec![8; 32]);
    assert_eq!(body_of(first), vec![8; 32]);
    let v1 = match pair.on_server_key(&mut manager, &ok_reply(vec![1; 32])) {
        Ok(r) => body_of(r),
        Err(e) => panic!("{e:?}"),
    };
    assert_eq!(&v1[..4], &[1, 0, 0, 0]);
    assert_eq!(&v1[4..36], &pair.exchange_public[..]);
    assert_eq!(&v1[36..], &[8; 32]);

    let server_secret = x25519_dalek::StaticSecret::from([3u8; 32]);
    let server_public = x25519_dalek::PublicKey::from(&server_secret);
    let client: [u8; 32] = pair.exchange_public.clone().try_into().unwrap();
    let shared = server_secret.diffie_hellman(&x25519_dalek::PublicKey::from(client));
    let mut v2 = server_public.as_bytes().to_vec();
    v2.extend([0u8; 64]);
    let verify = match pair.on_server_verify(&ok_reply(v2)) {
        Ok(v) => v,
        Err(e) => panic!("{e:?}"),
    };
    let mut message = server_public.as_bytes().to_vec();
    message.extend(&pair.exchange_public);
    assert_eq!(verify.message, message);
    assert_eq!(verify.signature.len(), 64);
    let mut back = server_public.as_bytes().to_vec();
    back.extend(&verify.signature);
    let twice = match pair.on_server_verify(&ok_reply(back)) {
        Ok(v) => v,
        Err(e) => panic!("{e:?}"),
    };
    assert_eq!(twice.signature, vec![0; 64]);
    let key = sha512_derive_key("Pair-Verify-AES-Key", shared.as_bytes());
    assert_eq!(key.len(), 16);
    assert_ne!(verify.signature, vec![0; 64]);

    let short = match pair.on_server_verify(&ok_reply(vec![0; 95])) {
        Err(e) => protocol_text(e),
        Ok(_) => panic!("the message is too short"),
    };
    assert_eq!(short, "Raw Pairing Failed, V2 package is not 96 bytes");
}

#[test]
fn verify_messages_are_decrypted_with_the_known_stream() {
    let pair = RawPair {
        signing_public: vec![0; 32],
        exchange_secret: vec![0x77; 32],
        exchange_public: x25519_dalek::PublicKey::from(&x25519_dalek::StaticSecret::from([0x77u8; 32]))
            .as_bytes()
            .to_vec(),
    };
    let server = x25519_dalek::StaticSecret::from([0x55u8; 32]);
    let server_public = x25519_dalek::PublicKey::from(&server);
    let client: [u8; 32] = pair.exchange_public.clone().try_into().unwrap();
    let shared = server.diffie_hellman(&x25519_dalek::PublicKey::from(client));
    let key: [u8; 16] = sha(&[b"Pair-Verify-AES-Key", shared.as_bytes()])[..16].try_into().unwrap();
    let iv: [u8; 16] = sha(&[b"Pair-Verify-AES-IV", shared.as_bytes()])[..16].try_into().unwrap();
    let mut stream = [0u8; 64];
    let mut cipher: ctr::Ctr128BE<aes::Aes128> = ctr::cipher::KeyIvInit::new(&key.into(), &iv.into());
    ctr::cipher::StreamCipher::apply_keystream(&mut cipher, &mut stream);
    let mut v2 = server_public.as_bytes().to_vec();
    v2.extend([0u8; 64]);
    match pair.on_server_verify(&ok_reply(v2)) {
        Ok(v) => assert_eq!(v.signature, stream.to_vec()),
        Err(e) => panic!("{e:?}"),
    }
}

#[test]
fn legacy_receivers_get_no_extra_header() {
    let legacy = Features::from_bits_truncate(SUPPORT_LEGACY_PAIRING);
    assert!(verify_headers(&legacy).is_empty());
    let modern = Features::from_bits_truncate(0);
    assert_eq!(verify_headers(&modern), vec![("X-Apple-PD".to_string(), "1".to_string())]);
}

#[test]
fn features_come_in_two_words() {
    assert!(parse_features("0x1").is_none());
    let low = parse_features("1,0").unwrap();
    assert!(low.contains(VIDEO_SUPPORTED));
    let two = parse_features("0x4A7FCFD5,0xBC157FDE").unwrap();
    assert_eq!(two.bits, 0xBC15_7FDE_4A7F_CFD5 & KNOWN_FEATURES);
    assert!(parse_features("video").is_none());
}

fn service(name: &str, features: &str) -> ResolvedService {
    let mut txt = TextMap::new();
    txt.insert("features".to_string(), features.to_string());
    txt.insert("model".to_string(), "AppleTV5,3".to_string());
    ResolvedService {
        fullname: name.to_string(),
        address: Some(0xC0A8_0105),
        port: 7000,
        txt,
    }
}

#[test]
fn receivers_are_resolved_and_lost_once() {
    let mut known = KnownDevices::new();
    let found = resolve(&mut known, service("TV._airplay._tcp.local.", "0x5A7FFFF7,0x1E"), 42);
    let device = found.unwrap();
    assert_eq!(device.name, "TV");
    assert_eq!(device.protocol, "airplay");
    assert_eq!(device.model.as_deref(), Some("AppleTV5,3"));
    assert_eq!(device.addr, IpAddress::V4(0xC0A8_0105));
    assert!(device.capabilities.supports_screen_mirror);
    assert_eq!(device.capabilities.supported_codecs, vec![Codec::H264]);
    assert_eq!(known.lost("TV._airplay._tcp.local."), Some(42));
    assert_eq!(known.lost("TV._airplay._tcp.local."), None);
    assert!(resolve(&mut known, service("B", "0x0,0x0"), 1).is_none());
    let mut nowhere = service("C", "0x5A7FFFF7,0x1E");
    nowhere.address = None;
    assert!(resolve(&mut known, nowhere, 1).is_none());
}

fn device(protocol: &str) -> Device {
    let mut metadata = TextMap::new();
    metadata.insert("pair_method".to_string(), "Transient".to_string());
    Device {
        id: 1,
        name: "Living room".to_string(),
        protocol: protocol.to_string(),
        model: None,
        addr: IpAddress::V4(1),
        port: 7000,
        metadata,
        capabilities: DeviceCapabilities::default(),
    }
}

fn frame(codec: Codec) -> EncodedFrame {
    EncodedFrame {
        codec,
        data: vec![1],
        timestamp_us: 0,
        is_keyframe: true,
        duration_us: None,
    }
}

#[test]
fn sessions_go_from_pairing_to_streaming() {
    let mut session = AirPlayHandler.create_session();
    assert!(session.connect(&device("airplay")).unwrap() == PairingMode::Transient);
    let challenge = session.connected(PairingMode::Transient);
    assert_eq!(challenge, PairingChallenge::Pin { digits: 4 });
    assert_eq!(
        session.connect(&device("airplay")).unwrap_err(),
        FerricastError::SessionAlreadyActive("Living room".to_string())
    );
    assert_eq!(
        protocol_text(session.setup_stream(Codec::H264).unwrap_err()),
        "Cannot setup stream in state: AwaitingPin"
    );
    assert!(session.submit_pairing(PairingResponse::Pin("1234".to_string())).is_ok());
    assert_eq!(
        session.setup_stream(Codec::Vp8).unwrap_err(),
        FerricastError::UnsupportedCodec {
            codec: Codec::Vp8,
            protocol: "airplay".to_string()
        }
    );
    assert_eq!(
        session.send_frame(&frame(Codec::H264)).unwrap_err(),
        FerricastError::Streaming("Cannot send frame in state: Connected".to_string())
    );
    assert!(session.setup_stream(Codec::H264).is_ok());
    assert!(session.send_frame(&frame(Codec::H264)).is_ok());
    assert!(session.send_frame(&frame(Codec::Av1)).is_err());
    session.stop();
    assert!(session.state == SessionState::TearingDown);
    assert!(!session.is_alive());
}

#[test]
fn pairing_answers_are_checked() {
    let mut session = AirPlaySession::new();
    assert_eq!(
        protocol_text(session.connect(&device("chromecast")).unwrap_err()),
        "Expected AirPlay device, got \"chromecast\""
    );
    assert_eq!(
        protocol_text(
            session.submit_pairing(PairingResponse::Pin("1".to_string())).unwrap_err()
        ),
        "submit_pairing called without a pending connection"
    );
    session.connected(PairingMode::Hap);
    assert_eq!(
        protocol_text(session.submit_pairing(PairingResponse::Confirmed).unwrap_err()),
        "AirPlay pairing expects a PIN, got Confirmed"
    );
    assert_eq!(
        protocol_text(session.submit_pairing(PairingResponse::Cancelled).unwrap_err()),
        "AirPlay pairing cancelled"
    );
    assert!(session.state == SessionState::Disconnected);
}

#[test]
fn random_identifiers_have_their_form() {
    assert_eq!(device_id_text(&[0x0a, 0xff, 0, 1, 2, 3]), "0A:FF:00:01:02:03");
    assert_eq!(generate_device_id().len(), 17);
    assert_ne!(generate_device_id(), generate_device_id());
    let text = random_string(40);
    assert_eq!(text.len(), 40);
    assert!(text.chars().all(|c| ('0'..='Z').contains(&c)));
    let (user, key) = generate_auth_token();
    assert_eq!(user.len(), 16);
    assert_eq!(key.len(), 64);
    assert!(key.chars().all(|c| c.is_ascii_hexdigit() && !c.is_ascii_uppercase()));
    let session = AirPlaySession::new();
    assert_eq!(session.session_id().len(), 36);
    assert_eq!(&session.session_id()[14..15], "4");
}
