//! The receiver as a whole.

use vstd::prelude::*;
use vstd::string::*;

use crate::chromecast::receiver::advertiser::{AdvertiseInfo, ChromecastReceiverAdvertiser};
use crate::crypto::{is_version_four, random_uuid};
use crate::device::{Capabilities, DeviceCapabilities, H264Profile};
use crate::media::Codec;
use crate::text::{
    digits_value, fixed_hex_is_read_back, hex_fixed, lemma_pow16_small, push_hex_fixed,
};
use crate::text_map::TextMap;

verus! {

/// The port that senders expect a receiver on.
pub const RECEIVER_PORT: u16 = 8009;

/// The identifier in 32 hexadecimal digits.
pub open spec fn simple_spelling(id: u128) -> Seq<char> {
    hex_fixed(id as nat / 0x1_0000_0000_0000_0000, 16) + hex_fixed(
        id as nat % 0x1_0000_0000_0000_0000,
        16,
    )
}

/// The identifier in 32 hexadecimal digits.
pub fn simple_text(id: u128) -> (out: String)
    ensures
        out@ == simple_spelling(id),
{
    let high: u64 = (id / 0x1_0000_0000_0000_0000) as u64;
    let low: u64 = (id % 0x1_0000_0000_0000_0000) as u64;
    let mut out: String = String::new();
    push_hex_fixed(&mut out, high, 16);
    push_hex_fixed(&mut out, low, 16);
    assert(out@ =~= simple_spelling(id));
    out
}

/// A receiver: its port, its identifier and its name.
#[derive(Debug, PartialEq, Eq)]
pub struct ChromecastReceiver {
    pub port: u16,
    pub device_id: String,
    pub friendly_name: String,
}

/// What the receiver can play.
pub open spec fn receiver_capabilities() -> Capabilities {
    Capabilities {
        supports_audio: true,
        supports_video: true,
        supports_screen_mirror: false,
        max_width: Some(3840),
        max_height: Some(2160),
        max_fps: Some(60),
        max_bitrate_kbps: Some(35_000),
        requires_audio: false,
        max_h264_profile: Some(H264Profile::High),
        supported_codecs: seq![Codec::H264, Codec::H265],
        supports_low_latency_hls: false,
        supports_cast_streaming: false,
    }
}

impl ChromecastReceiver {
    /// A receiver on the expected port, with a random identifier.
    pub fn new(friendly_name: String) -> (r: Self)
        ensures
            r.port == RECEIVER_PORT,
            r.friendly_name == friendly_name,
            exists|id: u128|
                is_version_four(id) && r.device_id@ == #[trigger] simple_spelling(id),
    {
        Self::with_port(friendly_name, RECEIVER_PORT)
    }

    /// A receiver on the port, with a random identifier.
    pub fn with_port(friendly_name: String, port: u16) -> (r: Self)
        ensures
            r.port == port,
            r.friendly_name == friendly_name,
            exists|id: u128|
                is_version_four(id) && r.device_id@ == #[trigger] simple_spelling(id),
    {
        let id: u128 = random_uuid();
        Self::with_id(friendly_name, port, id)
    }

    /// A receiver on the port, with the identifier.
    pub fn with_id(friendly_name: String, port: u16, id: u128) -> (r: Self)
        ensures
            r.port == port,
            r.friendly_name == friendly_name,
            r.device_id@ == simple_spelling(id),
    {
        ChromecastReceiver { port, device_id: simple_text(id), friendly_name }
    }

    /// The codecs that the receiver plays.
    pub fn supported_codecs(&self) -> (codecs: Vec<Codec>)
        ensures
            codecs@ == seq![Codec::H264, Codec::H265],
    {
        let codecs: Vec<Codec> = vec![Codec::H264, Codec::H265];
        assert(codecs@ =~= seq![Codec::H264, Codec::H265]);
        codecs
    }

    /// An advertiser that announces nothing yet.
    pub fn create_advertiser(&self) -> (a: ChromecastReceiverAdvertiser)
        ensures
            a == (ChromecastReceiverAdvertiser { fullname: None, device_id: None }),
    {
        ChromecastReceiverAdvertiser::new()
    }

    /// What the receiver says of itself.
    pub fn advertise_info(&self) -> (info: AdvertiseInfo)
        ensures
            info.friendly_name@ == self.friendly_name@,
            info.port == self.port,
            info.capabilities@ == receiver_capabilities(),
            info.device_id@ == self.device_id@,
            info.icon@ == Seq::<u8>::empty(),
            info.txt@.dom() == set!["ve"@],
            info.txt@["ve"@]@ == "05"@,
    {
        let mut txt: TextMap<String> = TextMap::new();
        txt.insert("ve".to_owned(), "05".to_owned());
        assert(txt@.dom() =~= set!["ve"@]);
        let capabilities = DeviceCapabilities {
            supports_audio: true,
            supports_video: true,
            supports_screen_mirror: false,
            max_width: Some(3840),
            max_height: Some(2160),
            max_fps: Some(60),
            max_bitrate_kbps: Some(35_000),
            requires_audio: false,
            max_h264_profile: Some(H264Profile::High),
            supported_codecs: self.supported_codecs(),
            supports_low_latency_hls: false,
            supports_cast_streaming: false,
        };
        AdvertiseInfo {
            friendly_name: self.friendly_name.clone(),
            port: self.port,
            capabilities,
            device_id: self.device_id.clone(),
            icon: Vec::new(),
            txt,
        }
    }
}

impl Default for ChromecastReceiver {
    fn default() -> (r: Self)
        ensures
            r.port == RECEIVER_PORT,
            r.friendly_name@ == "Ferricast"@,
            exists|id: u128|
                is_version_four(id) && r.device_id@ == #[trigger] simple_spelling(id),
    {
        Self::new("Ferricast".to_owned())
    }
}

/// An identifier is read back from its 32 digits, the high ones first.
pub proof fn plain_identifier_is_read_back(id: u128)
    ensures
        simple_spelling(id).len() == 32,
        digits_value(simple_spelling(id).take(16), 16) == Some(
            id as nat / 0x1_0000_0000_0000_0000,
        ),
        digits_value(simple_spelling(id).skip(16), 16) == Some(
            id as nat % 0x1_0000_0000_0000_0000,
        ),
{
    let high = id as nat / 0x1_0000_0000_0000_0000;
    let low = id as nat % 0x1_0000_0000_0000_0000;
    lemma_pow16_small();
    fixed_hex_is_read_back(high, 16);
    fixed_hex_is_read_back(low, 16);
    assert(simple_spelling(id).take(16) =~= hex_fixed(high, 16));
    assert(simple_spelling(id).skip(16) =~= hex_fixed(low, 16));
}

/// The receiver plays video with sound up to 4K at 60 frames and 35,000
/// kilobits, H.264 in the high profile and H.265, on the port that senders
/// expect; it takes no mirrored screen.
pub proof fn receiver_plays_up_to_4k()
    ensures
        ({
            let c = receiver_capabilities();
            &&& c.supports_audio && c.supports_video && !c.supports_screen_mirror
            &&& c.max_width == Some(3840u32) && c.max_height == Some(2160u32)
            &&& c.max_fps == Some(60u32) && c.max_bitrate_kbps == Some(35_000u32)
            &&& c.supported_codecs == seq![Codec::H264, Codec::H265]
            &&& c.max_h264_profile == Some(H264Profile::High)
            &&& !c.requires_audio && !c.supports_low_latency_hls && !c.supports_cast_streaming
        }),
        RECEIVER_PORT == 8009,
{
}

} // verus!
