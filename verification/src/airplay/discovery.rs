//! AirPlay receivers out of multicast DNS.

use vstd::prelude::*;
use vstd::string::*;

use crate::airplay::features::{
    advertised_bits, parse_features, Features, AUDIO_SUPPORTED, KNOWN_FEATURES,
    MIRRORING_SUPPORTED, VIDEO_HTTP_LIVE_STREAM, VIDEO_SUPPORTED,
};
use crate::device::{
    no_capabilities, Capabilities, Device, DeviceCapabilities, IpAddress, KnownDevices,
    ResolvedService,
};
use crate::media::Codec;
use crate::text::{affixes_are_taken_off, strip_suffix, without_suffix};

verus! {

/// The service type that AirPlay receivers announce.
pub const AIRPLAY_SERVICE_TYPE: &'static str = "_airplay._tcp.local.";

/// The name of the protocol.
pub const AIRPLAY_PROTOCOL: &'static str = "airplay";

/// The text of a record, empty where there is none.
pub open spec fn record_text(txt: Map<Seq<char>, String>, key: Seq<char>) -> Seq<char> {
    if txt.dom().contains(key) {
        txt[key]@
    } else {
        Seq::empty()
    }
}

/// The feature bits of a service, where its record can be read.
pub open spec fn service_features(txt: Map<Seq<char>, String>) -> Option<Features> {
    match advertised_bits(record_text(txt, "features"@)) {
        Some(bits) => Some(Features { bits: bits & KNOWN_FEATURES }),
        None => None,
    }
}

/// Whether a service is reported: it has an address and readable features, and
/// plays HTTP live streams.
pub open spec fn is_reported(service: ResolvedService) -> bool {
    &&& service.address is Some
    &&& service_features(service.txt@) is Some
    &&& service_features(service.txt@)->0.has(VIDEO_HTTP_LIVE_STREAM)
}

/// What a receiver with these features can play.
pub open spec fn airplay_capabilities(features: Features) -> Capabilities {
    Capabilities {
        supports_audio: features.has(AUDIO_SUPPORTED),
        supports_screen_mirror: features.has(MIRRORING_SUPPORTED),
        supports_video: features.has(VIDEO_SUPPORTED),
        requires_audio: features.has(AUDIO_SUPPORTED),
        supports_low_latency_hls: features.has(VIDEO_HTTP_LIVE_STREAM),
        supported_codecs: seq![Codec::H264],
        ..no_capabilities()
    }
}

/// Whether this is the device of a reported service, under the identifier.
pub open spec fn is_device_of(d: Device, service: ResolvedService, id: u128) -> bool {
    &&& d.id == id
    &&& d.name@ == without_suffix(service.fullname@, "._airplay._tcp.local."@)
    &&& d.protocol@ == AIRPLAY_PROTOCOL@
    &&& d.addr == IpAddress::V4(service.address->0)
    &&& d.port == service.port
    &&& d.metadata@ == service.txt@
    &&& match d.model {
        Some(m) => service.txt@.dom().contains("model"@) && m@ == service.txt@["model"@]@,
        None => !service.txt@.dom().contains("model"@),
    }
    &&& d.capabilities@ == airplay_capabilities(service_features(service.txt@)->0)
}

/// The device of a resolved service, under the identifier `id`. A service
/// without an address, with unreadable features or without live streams is
/// passed over. A service that is reported is remembered by its full name.
pub fn resolve(known: &mut KnownDevices, service: ResolvedService, id: u128) -> (device: Option<
    Device,
>)
    ensures
        match device {
            Some(d) => {
                &&& is_reported(service)
                &&& is_device_of(d, service, id)
                &&& final(known)@ == old(known)@.insert(service.fullname@, id)
            },
            None => !is_reported(service) && final(known)@ == old(known)@,
        },
{
    let addr: u32 = match service.address {
        Some(a) => a,
        None => {
            return None;
        },
    };
    let text: &str = match service.txt.get("features") {
        Some(t) => t.as_str(),
        None => "",
    };
    proof {
        reveal_strlit("");
        assert(""@ =~= Seq::<char>::empty());
    }
    let features: Features = match parse_features(text) {
        Some(f) => f,
        None => {
            return None;
        },
    };
    if !features.contains(VIDEO_HTTP_LIVE_STREAM) {
        return None;
    }
    let model: Option<String> = match service.txt.get("model") {
        Some(m) => Some(m.clone()),
        None => None,
    };
    let mut capabilities: DeviceCapabilities = DeviceCapabilities::default();
    capabilities.supports_audio = features.contains(AUDIO_SUPPORTED);
    capabilities.supports_screen_mirror = features.contains(MIRRORING_SUPPORTED);
    capabilities.supports_video = features.contains(VIDEO_SUPPORTED);
    capabilities.requires_audio = features.contains(AUDIO_SUPPORTED);
    capabilities.supports_low_latency_hls = features.contains(VIDEO_HTTP_LIVE_STREAM);
    capabilities.supported_codecs = vec![Codec::H264];
    assert(capabilities.supported_codecs@ =~= seq![Codec::H264]);
    known.found(service.fullname.as_str(), id);
    Some(
        Device {
            id,
            name: strip_suffix(service.fullname.as_str(), "._airplay._tcp.local."),
            protocol: AIRPLAY_PROTOCOL.to_owned(),
            model,
            addr: IpAddress::V4(addr),
            port: service.port,
            metadata: service.txt,
            capabilities,
        },
    )
}

/// What a receiver can play stands in its bits: video, live streams, mirroring
/// and sound each in its own. A receiver that plays sound is given sound.
pub proof fn bits_tell_what_plays(features: Features)
    ensures
        ({
            let caps = airplay_capabilities(features);
            &&& caps.supports_video == (features.bits & 0x1 == 0x1)
            &&& caps.supports_screen_mirror == (features.bits & 0x80 == 0x80)
            &&& caps.supports_audio == (features.bits & 0x200 == 0x200)
            &&& caps.requires_audio == caps.supports_audio
            &&& caps.supports_low_latency_hls == (features.bits & 0x10 == 0x10)
            &&& caps.supported_codecs == seq![Codec::H264]
            &&& caps.max_width is None && caps.max_height is None && caps.max_fps is None
            &&& caps.max_bitrate_kbps is None && caps.max_h264_profile is None
            &&& !caps.supports_cast_streaming
        }),
{
}

/// A receiver is reported where its address is known and its record of bits can
/// be read and says that it plays live streams; whatever else it announces does
/// not matter.
pub proof fn live_streams_are_asked_for(service: ResolvedService, bits: u64)
    requires
        service.txt@.dom().contains("features"@),
        advertised_bits(service.txt@["features"@]@) == Some(bits),
    ensures
        is_reported(service) == (service.address is Some && bits & 0x10 == 0x10),
        service_features(service.txt@) == Some(Features { bits: bits & KNOWN_FEATURES }),
{
    assert((bits & 0x9_4f47_4c00_7bbf) & 0x10 == 0x10 <==> bits & 0x10 == 0x10) by (bit_vector);
}

/// A receiver without a record of bits is not reported.
pub proof fn unreadable_receivers_are_passed_over(service: ResolvedService)
    requires
        !service.txt@.dom().contains("features"@),
    ensures
        !is_reported(service),
{
    let none = Seq::<char>::empty();
    assert(!none.contains(','));
    crate::text::first_piece_ends_at_the_separator(none, ',', none);
    assert(crate::text::split_on(none, ',').len() == 1);
}

/// A device is what its service announces: named by what stands before the
/// service type, at the service's address and port, of the announced model.
pub proof fn devices_are_as_announced(
    d: Device,
    service: ResolvedService,
    id: u128,
    name: Seq<char>,
)
    requires
        is_device_of(d, service, id),
        service.fullname@ == name + "._airplay._tcp.local."@,
    ensures
        d.id == id,
        d.name@ == name,
        d.protocol@ == "airplay"@,
        service.address matches Some(a) ==> d.addr == IpAddress::V4(a),
        d.port == service.port,
        d.metadata@ == service.txt@,
        d.model is Some <==> service.txt@.dom().contains("model"@),
        d.model matches Some(m) ==> m@ == service.txt@["model"@]@,
        AIRPLAY_SERVICE_TYPE@ == "_airplay._tcp.local."@,
{
    affixes_are_taken_off(name, "._airplay._tcp.local."@);
}

} // verus!
