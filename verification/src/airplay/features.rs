//! The feature bits that an AirPlay receiver advertises.

use vstd::prelude::*;

use crate::text::{
    first_piece_ends_at_the_separator, fixed_hex_is_read_back, hex_fixed, lemma_hex_fixed_chars,
    lemma_pow16_small, parse_number, parse_unsigned, split, split_on, strip_prefix, without_prefix,
};

verus! {

/// A set of feature bits.
#[derive(Clone, Copy, Debug, PartialEq, Eq, Structural)]
pub struct Features {
    pub bits: u64,
}

pub const VIDEO_SUPPORTED: u64 = 0x1;

pub const PHOTO_SUPPORTED: u64 = 0x2;

pub const VIDEO_FAIRPLAY: u64 = 0x4;

pub const VOLUME_CONTROL: u64 = 0x8;

pub const VIDEO_HTTP_LIVE_STREAM: u64 = 0x10;

pub const SLIDESHOW_SUPPORTED: u64 = 0x20;

pub const MIRRORING_SUPPORTED: u64 = 0x80;

pub const SCREEN_ROTATE: u64 = 0x100;

pub const AUDIO_SUPPORTED: u64 = 0x200;

pub const AUDIO_REDUNDANCY_SUPPORTED: u64 = 0x800;

pub const FAIRPLAY_SECURE_AUTH_SUPPORTED: u64 = 0x1000;

pub const PHOTO_CACHING: u64 = 0x2000;

pub const AUTH4: u64 = 0x4000;

pub const HAS_UNIFIED_ADVERTISER_INFO: u64 = 0x400_0000;

pub const SUPPORT_LEGACY_PAIRING: u64 = 0x800_0000;

pub const RAOP: u64 = 0x4000_0000;

pub const SUPPORTS_VOLUME: u64 = 0x1_0000_0000;

pub const AIRPLAY_VIDEO_PLAY_QUEUE: u64 = 0x2_0000_0000;

pub const AIRPLAY_FROM_CLOUD: u64 = 0x4_0000_0000;

pub const CORE_UTILS_PAIRING_AND_ENCRYPTION: u64 = 0x40_0000_0000;

pub const BUFFERED_AUDIO: u64 = 0x100_0000_0000;

pub const PTP: u64 = 0x200_0000_0000;

pub const SCREEN_MULTI_CODEC: u64 = 0x400_0000_0000;

pub const SYSTEM_PAIRING: u64 = 0x800_0000_0000;

pub const HK_PAIRING_AND_ACCESS_CONTROL: u64 = 0x4000_0000_0000;

pub const TRANSIENT_PAIRING: u64 = 0x1_0000_0000_0000;

pub const UNIFIED_PAIR_SETUP_MFI: u64 = 0x8_0000_0000_0000;

/// Every bit that has a name.
pub const KNOWN_FEATURES: u64 = 0x9_4f47_4c00_7bbf;

impl Features {
    /// The named bits of `bits`.
    pub fn from_bits_truncate(bits: u64) -> (features: Features)
        ensures
            features.bits == bits & KNOWN_FEATURES,
    {
        Features { bits: bits & KNOWN_FEATURES }
    }

    /// Whether every bit of `flag` is there.
    pub open spec fn has(self, flag: u64) -> bool {
        self.bits & flag == flag
    }

    /// Whether every bit of `flag` is there.
    pub fn contains(&self, flag: u64) -> (held: bool)
        ensures
            held == self.has(flag),
    {
        self.bits & flag == flag
    }

    /// Whether the receiver pairs the older way.
    pub fn supports_legacy_pairing(&self) -> (legacy: bool)
        ensures
            legacy == self.has(SUPPORT_LEGACY_PAIRING),
    {
        self.contains(SUPPORT_LEGACY_PAIRING)
    }
}

/// Cutting the bits without a name off does not hide a bit that has one.
pub proof fn truncation_keeps_known(bits: u64, flag: u64)
    requires
        flag & KNOWN_FEATURES == flag,
    ensures
        (Features { bits: bits & KNOWN_FEATURES }).has(flag) == (Features { bits }).has(flag),
{
    let known = KNOWN_FEATURES;
    assert((bits & known) & flag == flag <==> bits & flag == flag) by (bit_vector)
        requires
            flag & known == flag,
    ;
}

/// One half of the advertised bits: hexadecimal, with or without a prefix.
pub open spec fn feature_half(text: Seq<char>) -> Option<nat> {
    parse_unsigned(without_prefix(text, "0x"@), 16, 0xffff_ffff)
}

/// The advertised bits: the low half, a comma, the high half; what follows a
/// second comma is ignored.
pub open spec fn advertised_bits(text: Seq<char>) -> Option<u64> {
    let parts = split_on(text, ',');
    if parts.len() < 2 {
        None
    } else {
        match (feature_half(parts[0]), feature_half(parts[1])) {
            (Some(low), Some(high)) => Some((high * 0x1_0000_0000 + low) as u64),
            _ => None,
        }
    }
}

fn half(text: &str) -> (value: Option<u64>)
    ensures
        match value {
            Some(v) => feature_half(text@) == Some(v as nat) && v <= 0xffff_ffff,
            None => feature_half(text@) is None,
        },
{
    let digits: String = strip_prefix(text, "0x");
    parse_number(digits.as_str(), 16, 0xffff_ffff)
}

/// Reads the advertised bits.
pub fn parse_features(text: &str) -> (features: Option<Features>)
    ensures
        match features {
            Some(f) => advertised_bits(text@) is Some && f.bits == advertised_bits(text@)->0
                & KNOWN_FEATURES,
            None => advertised_bits(text@) is None,
        },
{
    let parts: Vec<String> = split(text, ',');
    let ghost all = split_on(text@, ',');
    assert(all.len() == parts@.len());
    assert(forall|k: int| 0 <= k < parts@.len() ==> all[k] == parts@[k]@) by {
        assert(forall|k: int|
            0 <= k < parts@.len() ==> parts@.map_values(|p: String| p@)[k] == parts@[k]@);
    }
    if parts.len() < 2 {
        return None;
    }
    match half(parts[0].as_str()) {
        None => None,
        Some(low) => match half(parts[1].as_str()) {
            None => None,
            Some(high) => Some(Features::from_bits_truncate(high * 0x1_0000_0000 + low)),
        },
    }
}

/// The bits stand where the protocol has them, and the known ones are those
/// that have a name.
pub proof fn bits_stand_where_the_protocol_has_them()
    ensures
        VIDEO_SUPPORTED == 1u64,
        PHOTO_SUPPORTED == 1u64 << 1,
        VIDEO_FAIRPLAY == 1u64 << 2,
        VOLUME_CONTROL == 1u64 << 3,
        VIDEO_HTTP_LIVE_STREAM == 1u64 << 4,
        SLIDESHOW_SUPPORTED == 1u64 << 5,
        MIRRORING_SUPPORTED == 1u64 << 7,
        SCREEN_ROTATE == 1u64 << 8,
        AUDIO_SUPPORTED == 1u64 << 9,
        AUDIO_REDUNDANCY_SUPPORTED == 1u64 << 11,
        FAIRPLAY_SECURE_AUTH_SUPPORTED == 1u64 << 12,
        PHOTO_CACHING == 1u64 << 13,
        AUTH4 == 1u64 << 14,
        HAS_UNIFIED_ADVERTISER_INFO == 1u64 << 26,
        SUPPORT_LEGACY_PAIRING == 1u64 << 27,
        RAOP == 1u64 << 30,
        SUPPORTS_VOLUME == 1u64 << 32,
        AIRPLAY_VIDEO_PLAY_QUEUE == 1u64 << 33,
        AIRPLAY_FROM_CLOUD == 1u64 << 34,
        CORE_UTILS_PAIRING_AND_ENCRYPTION == 1u64 << 38,
        BUFFERED_AUDIO == 1u64 << 40,
        PTP == 1u64 << 41,
        SCREEN_MULTI_CODEC == 1u64 << 42,
        SYSTEM_PAIRING == 1u64 << 43,
        HK_PAIRING_AND_ACCESS_CONTROL == 1u64 << 46,
        TRANSIENT_PAIRING == 1u64 << 48,
        UNIFIED_PAIR_SETUP_MFI == 1u64 << 51,
        KNOWN_FEATURES == VIDEO_SUPPORTED | PHOTO_SUPPORTED | VIDEO_FAIRPLAY | VOLUME_CONTROL
            | VIDEO_HTTP_LIVE_STREAM | SLIDESHOW_SUPPORTED | MIRRORING_SUPPORTED | SCREEN_ROTATE
            | AUDIO_SUPPORTED | AUDIO_REDUNDANCY_SUPPORTED | FAIRPLAY_SECURE_AUTH_SUPPORTED
            | PHOTO_CACHING | AUTH4 | HAS_UNIFIED_ADVERTISER_INFO | SUPPORT_LEGACY_PAIRING | RAOP
            | SUPPORTS_VOLUME | AIRPLAY_VIDEO_PLAY_QUEUE | AIRPLAY_FROM_CLOUD
            | CORE_UTILS_PAIRING_AND_ENCRYPTION | BUFFERED_AUDIO | PTP | SCREEN_MULTI_CODEC
            | SYSTEM_PAIRING | HK_PAIRING_AND_ACCESS_CONTROL | TRANSIENT_PAIRING
            | UNIFIED_PAIR_SETUP_MFI,
{
    assert(1u64 << 1 == 0x2 && 1u64 << 2 == 0x4 && 1u64 << 3 == 0x8 && 1u64 << 4 == 0x10 && 1u64
        << 5 == 0x20 && 1u64 << 7 == 0x80 && 1u64 << 8 == 0x100 && 1u64 << 9 == 0x200 && 1u64
        << 11 == 0x800 && 1u64 << 12 == 0x1000 && 1u64 << 13 == 0x2000 && 1u64 << 14 == 0x4000
        && 1u64 << 26 == 0x400_0000 && 1u64 << 27 == 0x800_0000 && 1u64 << 30 == 0x4000_0000
        && 1u64 << 32 == 0x1_0000_0000 && 1u64 << 33 == 0x2_0000_0000 && 1u64 << 34
        == 0x4_0000_0000 && 1u64 << 38 == 0x40_0000_0000 && 1u64 << 40 == 0x100_0000_0000 && 1u64
        << 41 == 0x200_0000_0000 && 1u64 << 42 == 0x400_0000_0000 && 1u64 << 43
        == 0x800_0000_0000 && 1u64 << 46 == 0x4000_0000_0000 && 1u64 << 48 == 0x1_0000_0000_0000
        && 1u64 << 51 == 0x8_0000_0000_0000) by (bit_vector);
    assert(0x9_4f47_4c00_7bbfu64 == 0x1u64 | 0x2 | 0x4 | 0x8 | 0x10 | 0x20 | 0x80 | 0x100 | 0x200
        | 0x800 | 0x1000 | 0x2000 | 0x4000 | 0x400_0000 | 0x800_0000 | 0x4000_0000
        | 0x1_0000_0000 | 0x2_0000_0000 | 0x4_0000_0000 | 0x40_0000_0000 | 0x100_0000_0000
        | 0x200_0000_0000 | 0x400_0000_0000 | 0x800_0000_0000 | 0x4000_0000_0000
        | 0x1_0000_0000_0000 | 0x8_0000_0000_0000) by (bit_vector);
}

/// A receiver that writes the low half of its bits, a comma and the high half,
/// each in hexadecimal digits behind a prefix or without, is read as it meant.
pub proof fn written_bits_are_read(low: u32, high: u32, prefixed: bool, more: Seq<char>)
    ensures
        ({
            let front = if prefixed {
                "0x"@
            } else {
                Seq::empty()
            };
            let text = front + hex_fixed(low as nat, 8) + seq![','] + (front + hex_fixed(
                high as nat,
                8,
            ));
            advertised_bits(text) == Some((high * 0x1_0000_0000 + low) as u64) && advertised_bits(
                text + seq![','] + more,
            ) == advertised_bits(text)
        }),
{
    let front = if prefixed {
        "0x"@
    } else {
        Seq::empty()
    };
    reveal_strlit("0x");
    assert("0x"@.len() == 2 && "0x"@[0] == '0' && "0x"@[1] == 'x');
    let a = front + hex_fixed(low as nat, 8);
    let b = front + hex_fixed(high as nat, 8);
    lemma_half_is_read(low, prefixed);
    lemma_half_is_read(high, prefixed);
    let text = a + seq![','] + b;
    first_piece_ends_at_the_separator(a, ',', b);
    first_piece_ends_at_the_separator(b, ',', more);
    assert(split_on(text, ',') =~= seq![a, b]);
    let longer = b + seq![','] + more;
    first_piece_ends_at_the_separator(a, ',', longer);
    assert(text + seq![','] + more =~= a + seq![','] + longer);
    assert(split_on(text + seq![','] + more, ',')[0] == a);
    assert(split_on(text + seq![','] + more, ',')[1] == b);
    crate::text::pieces_make_the_text(more, ',');
}

proof fn lemma_half_is_read(n: u32, prefixed: bool)
    ensures
        ({
            let front = if prefixed {
                "0x"@
            } else {
                Seq::empty()
            };
            let text = front + hex_fixed(n as nat, 8);
            feature_half(text) == Some(n as nat) && !text.contains(',')
        }),
{
    let front = if prefixed {
        "0x"@
    } else {
        Seq::empty()
    };
    reveal_strlit("0x");
    assert("0x"@.len() == 2 && "0x"@[0] == '0' && "0x"@[1] == 'x');
    let h = hex_fixed(n as nat, 8);
    let text = front + h;
    lemma_pow16_small();
    fixed_hex_is_read_back(n as nat, 8);
    lemma_hex_fixed_chars(n as nat, 8, ',');
    lemma_hex_fixed_chars(n as nat, 8, '+');
    lemma_hex_fixed_chars(n as nat, 8, 'x');
    assert(h[0] != '+' && h[1] != 'x') by {
        assert(h.contains(h[0]) && h.contains(h[1]));
    }
    assert(!text.contains(',')) by {
        if text.contains(',') {
            let i = choose|i: int| 0 <= i < text.len() && text[i] == ',';
            if i >= front.len() {
                assert(h[i - front.len()] == ',');
            }
        }
    }
    if prefixed {
        assert(text.take(2) =~= "0x"@);
        assert(text.skip(2) =~= h);
    } else {
        assert(text =~= h);
        assert(h.take(2)[1] == h[1]);
        assert(without_prefix(h, "0x"@) == h);
    }
}

} // verus!
