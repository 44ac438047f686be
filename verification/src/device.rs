//! Receivers as discovery reports them.

use vstd::prelude::*;
use vstd::string::*;

use crate::media::Codec;
use crate::text::{
    digits_value, fixed_hex_spells_the_rest, hex_fixed, lemma_pow16_small, push_hex_fixed,
};
use crate::text_map::TextMap;

verus! {

/// The strictest H.264 profile that a decoder accepts.
#[derive(Clone, Copy, Debug, PartialEq, Eq, Structural)]
pub enum H264Profile {
    Baseline,
    Main,
    High,
}

/// An address of the Internet protocol.
#[derive(Clone, Copy, Debug, PartialEq, Eq, Structural)]
pub enum IpAddress {
    V4(u32),
    V6(u128),
}

/// What a receiver can play.
#[derive(Debug, PartialEq, Eq)]
pub struct DeviceCapabilities {
    pub supports_audio: bool,
    pub supports_video: bool,
    pub supports_screen_mirror: bool,
    pub max_width: Option<u32>,
    pub max_height: Option<u32>,
    pub max_fps: Option<u32>,
    pub max_bitrate_kbps: Option<u32>,
    pub requires_audio: bool,
    pub max_h264_profile: Option<H264Profile>,
    pub supported_codecs: Vec<Codec>,
    pub supports_low_latency_hls: bool,
    pub supports_cast_streaming: bool,
}

/// What a receiver can play, the codecs as a sequence.
pub struct Capabilities {
    pub supports_audio: bool,
    pub supports_video: bool,
    pub supports_screen_mirror: bool,
    pub max_width: Option<u32>,
    pub max_height: Option<u32>,
    pub max_fps: Option<u32>,
    pub max_bitrate_kbps: Option<u32>,
    pub requires_audio: bool,
    pub max_h264_profile: Option<H264Profile>,
    pub supported_codecs: Seq<Codec>,
    pub supports_low_latency_hls: bool,
    pub supports_cast_streaming: bool,
}

impl View for DeviceCapabilities {
    type V = Capabilities;

    open spec fn view(&self) -> Capabilities {
        Capabilities {
            supports_audio: self.supports_audio,
            supports_video: self.supports_video,
            supports_screen_mirror: self.supports_screen_mirror,
            max_width: self.max_width,
            max_height: self.max_height,
            max_fps: self.max_fps,
            max_bitrate_kbps: self.max_bitrate_kbps,
            requires_audio: self.requires_audio,
            max_h264_profile: self.max_h264_profile,
            supported_codecs: self.supported_codecs@,
            supports_low_latency_hls: self.supports_low_latency_hls,
            supports_cast_streaming: self.supports_cast_streaming,
        }
    }
}

/// The capabilities of a receiver of which nothing is known.
pub open spec fn no_capabilities() -> Capabilities {
    Capabilities {
        supports_audio: false,
        supports_video: false,
        supports_screen_mirror: false,
        max_width: None,
        max_height: None,
        max_fps: None,
        max_bitrate_kbps: None,
        requires_audio: false,
        max_h264_profile: None,
        supported_codecs: Seq::empty(),
        supports_low_latency_hls: false,
        supports_cast_streaming: false,
    }
}

impl Default for DeviceCapabilities {
    fn default() -> (caps: Self)
        ensures
            caps@ == no_capabilities(),
    {
        DeviceCapabilities {
            supports_audio: false,
            supports_video: false,
            supports_screen_mirror: false,
            max_width: None,
            max_height: None,
            max_fps: None,
            max_bitrate_kbps: None,
            requires_audio: false,
            max_h264_profile: None,
            supported_codecs: Vec::new(),
            supports_low_latency_hls: false,
            supports_cast_streaming: false,
        }
    }
}

/// A receiver on the network.
pub struct Device {
    pub id: u128,
    pub name: String,
    pub protocol: String,
    pub model: Option<String>,
    pub addr: IpAddress,
    pub port: u16,
    pub metadata: TextMap<String>,
    pub capabilities: DeviceCapabilities,
}

/// A service as multicast DNS resolved it: its full name, its first address of
/// version four, its port and its text records.
pub struct ResolvedService {
    pub fullname: String,
    pub address: Option<u32>,
    pub port: u16,
    pub txt: TextMap<String>,
}

/// What discovery tells its listener.
pub enum DiscoveryEvent {
    DeviceFound(Device),
    DeviceLost(u128),
}

/// The devices that were reported, by the full name of their service.
pub struct KnownDevices {
    known: TextMap<u128>,
}

impl View for KnownDevices {
    type V = Map<Seq<char>, u128>;

    closed spec fn view(&self) -> Map<Seq<char>, u128> {
        self.known@
    }
}

impl KnownDevices {
    /// No device is known.
    pub fn new() -> (devices: Self)
        ensures
            devices@ == Map::<Seq<char>, u128>::empty(),
    {
        KnownDevices { known: TextMap::new() }
    }

    /// Remembers that the service `fullname` stands for the device `id`.
    pub fn found(&mut self, fullname: &str, id: u128)
        ensures
            final(self)@ == old(self)@.insert(fullname@, id),
    {
        self.known.insert(fullname.to_owned(), id);
    }

    /// Forgets the service, and says which device is lost with it.
    pub fn lost(&mut self, fullname: &str) -> (id: Option<u128>)
        ensures
            final(self)@ == old(self)@.remove(fullname@),
            match id {
                Some(v) => old(self)@.dom().contains(fullname@) && old(self)@[fullname@] == v,
                None => !old(self)@.dom().contains(fullname@),
            },
    {
        self.known.remove(fullname)
    }
}

/// A service that was found is reported lost once: the device that was last
/// found under its name, and nothing after that.
pub proof fn found_then_lost(known: Map<Seq<char>, u128>, fullname: Seq<char>, id: u128)
    ensures
        known.insert(fullname, id).dom().contains(fullname),
        known.insert(fullname, id)[fullname] == id,
        !known.insert(fullname, id).remove(fullname).dom().contains(fullname),
        known.insert(fullname, id).remove(fullname) == known.remove(fullname),
{
    assert(known.insert(fullname, id).remove(fullname) =~= known.remove(fullname));
}

/// The identifier in groups of eight, four, four, four and twelve hexadecimal
/// digits.
pub open spec fn uuid_spelling(id: u128) -> Seq<char> {
    let high = id as nat / 0x1_0000_0000_0000_0000;
    let low = id as nat % 0x1_0000_0000_0000_0000;
    hex_fixed(high / 0x1_0000_0000, 8) + seq!['-'] + hex_fixed(high / 0x1_0000, 4) + seq!['-']
        + hex_fixed(high, 4) + seq!['-'] + hex_fixed(low / 0x1_0000_0000_0000, 4) + seq!['-']
        + hex_fixed(low, 12)
}

/// The identifier in groups of hexadecimal digits.
pub fn uuid_text(id: u128) -> (out: String)
    ensures
        out@ == uuid_spelling(id),
{
    let high: u64 = (id / 0x1_0000_0000_0000_0000) as u64;
    let low: u64 = (id % 0x1_0000_0000_0000_0000) as u64;
    let mut out: String = String::new();
    push_hex_fixed(&mut out, high / 0x1_0000_0000, 8);
    out.push('-');
    push_hex_fixed(&mut out, high / 0x1_0000, 4);
    out.push('-');
    push_hex_fixed(&mut out, high, 4);
    out.push('-');
    push_hex_fixed(&mut out, low / 0x1_0000_0000_0000, 4);
    out.push('-');
    push_hex_fixed(&mut out, low, 12);
    assert(out@ =~= uuid_spelling(id));
    out
}

pub proof fn lemma_hex_fixed_len(n: nat, width: nat)
    ensures
        hex_fixed(n, width).len() == width,
    decreases width,
{
    if width > 0 {
        lemma_hex_fixed_len(n / 16, (width - 1) as nat);
    }
}

/// An identifier is spelled in 36 characters.
pub proof fn uuid_spelling_len(id: u128)
    ensures
        uuid_spelling(id).len() == 36,
{
    let high = id as nat / 0x1_0000_0000_0000_0000;
    let low = id as nat % 0x1_0000_0000_0000_0000;
    lemma_hex_fixed_len(high / 0x1_0000_0000, 8);
    lemma_hex_fixed_len(high / 0x1_0000, 4);
    lemma_hex_fixed_len(high, 4);
    lemma_hex_fixed_len(low / 0x1_0000_0000_0000, 4);
    lemma_hex_fixed_len(low, 12);
}

/// An identifier is read back from its spelling: five groups of hexadecimal
/// digits with a dash between them, the high digits first.
pub proof fn identifier_is_read_back(id: u128)
    ensures
        ({
            let s = uuid_spelling(id);
            let n = id as nat;
            &&& s.len() == 36
            &&& s[8] == '-' && s[13] == '-' && s[18] == '-' && s[23] == '-'
            &&& digits_value(s.subrange(0, 8), 16) == Some(
                n / 0x1_0000_0000_0000_0000 / 0x1_0000_0000,
            )
            &&& digits_value(s.subrange(9, 13), 16) == Some(
                n / 0x1_0000_0000_0000_0000 / 0x1_0000 % 0x1_0000,
            )
            &&& digits_value(s.subrange(14, 18), 16) == Some(
                n / 0x1_0000_0000_0000_0000 % 0x1_0000,
            )
            &&& digits_value(s.subrange(19, 23), 16) == Some(
                n % 0x1_0000_0000_0000_0000 / 0x1_0000_0000_0000,
            )
            &&& digits_value(s.subrange(24, 36), 16) == Some(
                n % 0x1_0000_0000_0000_0000 % 0x1_0000_0000_0000,
            )
        }),
{
    let s = uuid_spelling(id);
    let high = id as nat / 0x1_0000_0000_0000_0000;
    let low = id as nat % 0x1_0000_0000_0000_0000;
    lemma_pow16_small();
    fixed_hex_spells_the_rest(high / 0x1_0000_0000, 8);
    fixed_hex_spells_the_rest(high / 0x1_0000, 4);
    fixed_hex_spells_the_rest(high, 4);
    fixed_hex_spells_the_rest(low / 0x1_0000_0000_0000, 4);
    fixed_hex_spells_the_rest(low, 12);
    assert(s.subrange(0, 8) =~= hex_fixed(high / 0x1_0000_0000, 8));
    assert(s.subrange(9, 13) =~= hex_fixed(high / 0x1_0000, 4));
    assert(s.subrange(14, 18) =~= hex_fixed(high, 4));
    assert(s.subrange(19, 23) =~= hex_fixed(low / 0x1_0000_0000_0000, 4));
    assert(s.subrange(24, 36) =~= hex_fixed(low, 12));
}

} // verus!
