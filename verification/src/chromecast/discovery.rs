//! Chromecast receivers out of multicast DNS, and what each model can play.

use vstd::prelude::*;
use vstd::string::*;

use crate::airplay::discovery::record_text;
use crate::chromecast::self_filter::SelfFilter;
use crate::chromecast::session::CHROMECAST_PROTOCOL;
use crate::crypto::{uuid_parse, uuid_parsed};
use crate::device::{
    Capabilities, Device, DeviceCapabilities, H264Profile, IpAddress, KnownDevices,
    ResolvedService,
};
use crate::media::Codec;
use crate::text::{contains_text, holds_part, parse_number, parse_unsigned, str_eq};

verus! {

/// The service type that receivers announce.
pub const CHROMECAST_SERVICE_TYPE: &'static str = "_googlecast._tcp.local.";

/// The bit of receivers that show video.
pub const CA_VIDEO_OUT: u32 = 1;

/// The bit of receivers that play sound.
pub const CA_AUDIO_OUT: u32 = 4;

/// A text in lower case.
pub uninterp spec fn lower_case(s: Seq<char>) -> Seq<char>;

/// `str::to_lowercase` of std: a function of the text.
#[verifier::external_body]
fn to_lower(s: &str) -> (out: String)
    ensures
        out@ == lower_case(s@),
{
    s.to_lowercase()
}

/// What the oldest receivers can play, and what the bits say of any.
pub open spec fn floor_capabilities(ca: u32) -> Capabilities {
    let video = ca & CA_VIDEO_OUT != 0 || ca == 0;
    Capabilities {
        supports_audio: ca & CA_AUDIO_OUT != 0 || ca == 0,
        supports_video: video,
        supports_screen_mirror: video,
        max_width: Some(1920),
        max_height: Some(1080),
        max_fps: Some(30),
        max_bitrate_kbps: Some(2_500),
        requires_audio: true,
        max_h264_profile: Some(H264Profile::Main),
        supported_codecs: seq![Codec::H264, Codec::Vp8],
        supports_low_latency_hls: false,
        supports_cast_streaming: false,
    }
}

/// What a receiver can play by its model in lower case and its bits. Ultras
/// play 4K and more codecs; televisions play more than the floor; the sound
/// model shows nothing; the plain model is the floor, and so is any model that
/// is not known.
pub open spec fn model_capabilities(model: Seq<char>, ca: u32) -> Capabilities {
    let floor = floor_capabilities(ca);
    if holds_part(model, "ultra"@) {
        Capabilities {
            max_width: Some(3840),
            max_height: Some(2160),
            max_fps: Some(30),
            max_bitrate_kbps: Some(30_000),
            requires_audio: false,
            max_h264_profile: Some(H264Profile::High),
            supported_codecs: seq![Codec::H264, Codec::Vp8, Codec::H265, Codec::Vp9],
            ..floor
        }
    } else if holds_part(model, "google tv"@) || holds_part(model, "android tv"@) {
        Capabilities {
            max_fps: Some(60),
            max_bitrate_kbps: Some(15_000),
            requires_audio: false,
            max_h264_profile: Some(H264Profile::High),
            ..floor
        }
    } else if model == "chromecast audio"@ {
        Capabilities {
            supports_video: false,
            supports_screen_mirror: false,
            max_width: None,
            max_height: None,
            max_fps: None,
            max_h264_profile: None,
            supported_codecs: Seq::empty(),
            ..floor
        }
    } else {
        floor
    }
}

/// What a receiver can play by its model in lower case and its bits.
pub fn capabilities_for_lower_model(model: &str, ca: u32) -> (caps: DeviceCapabilities)
    ensures
        caps@ == model_capabilities(model@, ca),
{
    let supports_video: bool = ca & CA_VIDEO_OUT != 0 || ca == 0;
    let mut caps = DeviceCapabilities {
        supports_audio: ca & CA_AUDIO_OUT != 0 || ca == 0,
        supports_video,
        supports_screen_mirror: supports_video,
        max_width: Some(1920),
        max_height: Some(1080),
        max_fps: Some(30),
        max_bitrate_kbps: Some(2_500),
        requires_audio: true,
        max_h264_profile: Some(H264Profile::Main),
        supported_codecs: vec![Codec::H264, Codec::Vp8],
        supports_low_latency_hls: false,
        supports_cast_streaming: false,
    };
    assert(caps.supported_codecs@ =~= seq![Codec::H264, Codec::Vp8]);
    if contains_text(model, "ultra") {
        caps.max_width = Some(3840);
        caps.max_height = Some(2160);
        caps.max_fps = Some(30);
        caps.max_bitrate_kbps = Some(30_000);
        caps.requires_audio = false;
        caps.max_h264_profile = Some(H264Profile::High);
        caps.supported_codecs.push(Codec::H265);
        caps.supported_codecs.push(Codec::Vp9);
        assert(caps.supported_codecs@ =~= seq![
            Codec::H264,
            Codec::Vp8,
            Codec::H265,
            Codec::Vp9,
        ]);
    } else if contains_text(model, "google tv") || contains_text(model, "android tv") {
        caps.max_fps = Some(60);
        caps.max_bitrate_kbps = Some(15_000);
        caps.requires_audio = false;
        caps.max_h264_profile = Some(H264Profile::High);
    } else if str_eq(model, "chromecast audio") {
        caps.supports_video = false;
        caps.supports_screen_mirror = false;
        caps.max_width = None;
        caps.max_height = None;
        caps.max_fps = None;
        caps.max_h264_profile = None;
        caps.supported_codecs.clear();
        assert(caps.supported_codecs@ =~= Seq::<Codec>::empty());
    }
    caps
}

/// What a receiver can play by its model, whatever its case, and its bits.
pub fn capabilities_for_model(md: &str, ca: u32) -> (caps: DeviceCapabilities)
    ensures
        caps@ == model_capabilities(lower_case(md@), ca),
{
    let model: String = to_lower(md);
    capabilities_for_lower_model(model.as_str(), ca)
}

/// Whatever the model, a receiver without a limit on the width has none on the
/// height or the rate and plays no codec; every other plays H.264.
pub proof fn screens_play_h264(model: Seq<char>, ca: u32)
    ensures
        ({
            let caps = model_capabilities(model, ca);
            &&& caps.max_width is None <==> caps.max_height is None
            &&& caps.max_width is None ==> caps.max_fps is None && !caps.supports_video
                && caps.supported_codecs.len() == 0
            &&& caps.max_width is Some ==> caps.supported_codecs.contains(Codec::H264)
            &&& caps.supports_screen_mirror ==> caps.supports_video
            &&& !caps.supports_low_latency_hls
        }),
{
    let caps = model_capabilities(model, ca);
    if caps.max_width is Some {
        assert(caps.supported_codecs[0] == Codec::H264);
    }
}

/// Whether a service is one of this process's own receivers.
pub open spec fn is_own(own: Set<Seq<char>>, service: ResolvedService) -> bool {
    service.txt@.dom().contains("id"@) && own.contains(service.txt@["id"@]@)
}

/// The identifier that a service announces, where it can be read.
pub open spec fn announced_id(service: ResolvedService) -> Option<u128> {
    if service.txt@.dom().contains("id"@) {
        uuid_parsed(service.txt@["id"@]@)
    } else {
        None
    }
}

/// The bits that a service announces; zero where they cannot be read.
pub open spec fn announced_bits(service: ResolvedService) -> u32 {
    match parse_unsigned(record_text(service.txt@, "ca"@), 10, 0xffff_ffff) {
        Some(n) => n as u32,
        None => 0,
    }
}

/// Whether this is the device of a service that announces the identifier
/// `announced`, if any, and a model of which `model` is the lower case. A
/// device without an identifier of its own gets `fresh`; one without a name is
/// called by its service.
pub open spec fn is_device_of(
    d: Device,
    service: ResolvedService,
    announced: Option<u128>,
    model: Seq<char>,
    fresh: u128,
) -> bool {
    &&& d.id == match announced {
        Some(id) => id,
        None => fresh,
    }
    &&& d.name@ == if service.txt@.dom().contains("fn"@) {
        service.txt@["fn"@]@
    } else {
        service.fullname@
    }
    &&& d.protocol@ == CHROMECAST_PROTOCOL@
    &&& service.address == match d.addr {
        IpAddress::V4(a) => Some(a),
        IpAddress::V6(_) => None,
    }
    &&& d.port == service.port
    &&& d.metadata@ == service.txt@
    &&& match d.model {
        Some(m) => service.txt@.dom().contains("md"@) && m@ == service.txt@["md"@]@,
        None => !service.txt@.dom().contains("md"@),
    }
    &&& d.capabilities@ == model_capabilities(model, announced_bits(service))
}

/// The device of a resolved service, from the identifier that it announces
/// and its model in lower case. One of the process's own receivers and a
/// service without an address are passed over. A device that is reported is
/// remembered by the full name of its service.
pub fn resolve_announced(
    known: &mut KnownDevices,
    own: &SelfFilter,
    service: ResolvedService,
    announced: Option<u128>,
    lower_model: &str,
    fresh: u128,
) -> (device: Option<Device>)
    ensures
        match device {
            Some(d) => {
                &&& !is_own(own@, service)
                &&& service.address is Some
                &&& is_device_of(d, service, announced, lower_model@, fresh)
                &&& final(known)@ == old(known)@.insert(service.fullname@, d.id)
            },
            None => (is_own(own@, service) || service.address is None) && final(known)@ == old(
                known)@,
        },
{
    proof {
        reveal_strlit("");
        assert(""@ =~= Seq::<char>::empty());
    }
    match service.txt.get("id") {
        Some(text) => {
            if own.contains(text.as_str()) {
                return None;
            }
        },
        None => {},
    }
    let id: u128 = match announced {
        Some(id) => id,
        None => fresh,
    };
    let addr: u32 = match service.address {
        Some(a) => a,
        None => {
            return None;
        },
    };
    let name: String = match service.txt.get("fn") {
        Some(n) => n.clone(),
        None => service.fullname.clone(),
    };
    let model: Option<String> = match service.txt.get("md") {
        Some(m) => Some(m.clone()),
        None => None,
    };
    let ca: u32 = match service.txt.get("ca") {
        Some(text) => match parse_number(text.as_str(), 10, 0xffff_ffff) {
            Some(n) => n as u32,
            None => 0,
        },
        None => 0,
    };
    let capabilities: DeviceCapabilities = capabilities_for_lower_model(lower_model, ca);
    known.found(service.fullname.as_str(), id);
    Some(
        Device {
            id,
            name,
            protocol: CHROMECAST_PROTOCOL.to_owned(),
            model,
            addr: IpAddress::V4(addr),
            port: service.port,
            metadata: service.txt,
            capabilities,
        },
    )
}

/// The device of a resolved service. One of the process's own receivers and a
/// service without an address are passed over. A device that is reported is
/// remembered by the full name of its service.
pub fn resolve(known: &mut KnownDevices, own: &SelfFilter, service: ResolvedService, fresh: u128) -> (
device: Option<Device>)
    ensures
        match device {
            Some(d) => {
                &&& !is_own(own@, service)
                &&& service.address is Some
                &&& is_device_of(
                    d,
                    service,
                    announced_id(service),
                    lower_case(record_text(service.txt@, "md"@)),
                    fresh,
                )
                &&& final(known)@ == old(known)@.insert(service.fullname@, d.id)
            },
            None => (is_own(own@, service) || service.address is None) && final(known)@ == old(
                known)@,
        },
{
    proof {
        reveal_strlit("");
        assert(""@ =~= Seq::<char>::empty());
    }
    let announced: Option<u128> = match service.txt.get("id") {
        Some(text) => uuid_parse(text.as_str()),
        None => None,
    };
    let lower_model: String = match service.txt.get("md") {
        Some(m) => to_lower(m.as_str()),
        None => to_lower(""),
    };
    resolve_announced(known, own, service, announced, lower_model.as_str(), fresh)
}

/// What each line of receivers plays: the floor is full HD at 30 frames in the
/// main profile within 2,500 kilobits, with sound; the Ultra plays 4K and more
/// codecs, televisions play 60 frames, and the model for sound shows nothing.
pub proof fn models_play_what_they_can(model: Seq<char>, ca: u32)
    ensures
        ({
            let caps = model_capabilities(model, ca);
            let ultra = holds_part(model, "ultra"@);
            let tv = holds_part(model, "google tv"@) || holds_part(model, "android tv"@);
            let sound = model == "chromecast audio"@;
            &&& ultra ==> caps.max_width == Some(3840u32) && caps.max_height == Some(2160u32)
                && caps.max_fps == Some(30u32) && caps.max_bitrate_kbps == Some(30_000u32)
                && !caps.requires_audio && caps.max_h264_profile == Some(H264Profile::High)
                && caps.supported_codecs == seq![Codec::H264, Codec::Vp8, Codec::H265, Codec::Vp9]
            &&& !ultra && tv ==> caps.max_width == Some(1920u32) && caps.max_height == Some(1080u32)
                && caps.max_fps == Some(60u32) && caps.max_bitrate_kbps == Some(15_000u32)
                && !caps.requires_audio && caps.max_h264_profile == Some(H264Profile::High)
                && caps.supported_codecs == seq![Codec::H264, Codec::Vp8]
            &&& !ultra && !tv && sound ==> caps.max_width is None && caps.max_height is None
                && caps.max_fps is None && caps.max_h264_profile is None && !caps.supports_video
                && !caps.supports_screen_mirror && caps.supported_codecs.len() == 0
            &&& !ultra && !tv && !sound ==> caps.max_width == Some(1920u32) && caps.max_height
                == Some(1080u32) && caps.max_fps == Some(30u32) && caps.max_bitrate_kbps == Some(
                2_500u32,
            ) && caps.requires_audio && caps.max_h264_profile == Some(H264Profile::Main)
                && caps.supported_codecs == seq![Codec::H264, Codec::Vp8]
            &&& !caps.supports_cast_streaming && !caps.supports_low_latency_hls
        }),
{
}

/// The lowest bit tells whether a receiver shows video and the third whether it
/// plays sound; one that tells nothing is taken to do both. A receiver that
/// shows video takes a mirrored screen.
pub proof fn bits_tell_video_and_sound(model: Seq<char>, ca: u32)
    requires
        model != "chromecast audio"@,
    ensures
        ({
            let caps = model_capabilities(model, ca);
            &&& caps.supports_video == (ca % 2 == 1 || ca == 0)
            &&& caps.supports_audio == (ca / 4 % 2 == 1 || ca == 0)
            &&& caps.supports_screen_mirror == caps.supports_video
        }),
{
    assert((ca & 1 != 0) == (ca % 2 == 1)) by (bit_vector);
    assert((ca & 4 != 0) == (ca / 4 % 2 == 1)) by (bit_vector);
}

/// A device is reported as its service announces itself: by the name under
/// "fn", else by its service; with the model under "md"; at its own address and
/// port; under the identifier that it announces, if it does; and as a receiver
/// of this protocol.
pub proof fn devices_are_as_announced(
    d: Device,
    service: ResolvedService,
    announced: Option<u128>,
    model: Seq<char>,
    fresh: u128,
)
    requires
        is_device_of(d, service, announced, model, fresh),
    ensures
        service.txt@.dom().contains("fn"@) ==> d.name@ == service.txt@["fn"@]@,
        !service.txt@.dom().contains("fn"@) ==> d.name@ == service.fullname@,
        service.txt@.dom().contains("md"@) ==> (d.model matches Some(m) && m@
            == service.txt@["md"@]@),
        d.protocol@ == "chromecast"@,
        d.port == service.port,
        service.address matches Some(a) ==> d.addr == IpAddress::V4(a),
        d.metadata@ == service.txt@,
        announced matches Some(id) ==> d.id == id,
        announced is None ==> d.id == fresh,
        service.txt@.dom().contains("ca"@) ==> forall|n: nat|
            n <= 0xffff_ffff && #[trigger] parse_unsigned(
                service.txt@["ca"@]@,
                10,
                0xffff_ffff,
            ) == Some(n) ==> d.capabilities@ == model_capabilities(model, n as u32),
{
}

/// A service is the process's own where it announces an identifier that the
/// process has registered, and only there.
pub proof fn own_services_are_known_by_their_identifier(
    own: Set<Seq<char>>,
    service: ResolvedService,
)
    ensures
        service.txt@.dom().contains("id"@) ==> is_own(own, service) == own.contains(
            service.txt@["id"@]@,
        ),
        !service.txt@.dom().contains("id"@) ==> !is_own(own, service) && announced_id(service)
            is None,
        service.txt@.dom().contains("id"@) ==> announced_id(service) == uuid_parsed(
            service.txt@["id"@]@,
        ),
        CHROMECAST_SERVICE_TYPE@ == "_googlecast._tcp.local."@,
{
}

} // verus!
