//! RTP and RTCP packets of a mirrored stream: headers, counter blocks,
//! fragments and reports, each with its exact layout.

use vstd::prelude::*;

use crate::crypto::{aes128_ctr, aes128_ctr_stream};
use crate::octets::{
    be_bytes, be_bytes_round_trip, be_value, lemma_be_bytes_len, lemma_pow256_small, push_all,
    push_be, read_be, xor_bytes, xored,
};

verus! {

/// The payload type of video.
pub const VIDEO_RTP_PAYLOAD_TYPE: u8 = 96;

/// The payload type of sound.
pub const AUDIO_RTP_PAYLOAD_TYPE: u8 = 97;

/// The ticks of the video clock in a second.
pub const VIDEO_CLOCK_RATE: u32 = 90_000;

/// The ticks of the sound clock in a second.
pub const AUDIO_CLOCK_RATE: u32 = 48_000;

/// The packet type of a sender report.
pub const RTCP_PT_SR: u8 = 200;

/// The packet type of feedback on the payload.
pub const RTCP_PT_PSFB: u8 = 206;

/// The largest payload of a packet.
pub const MAX_RTP_PAYLOAD: usize = 1_400;

/// A time in microseconds on the video clock, its low 32 bits.
pub open spec fn video_ticks(us: int) -> u32 {
    ((us * 9 / 100) % 0x1_0000_0000) as u32
}

/// A time in microseconds on the sound clock, its low 32 bits.
pub open spec fn audio_ticks(us: int) -> u32 {
    ((us * 48 / 1000) % 0x1_0000_0000) as u32
}

/// A time in microseconds on the video clock.
pub fn video_rtp_ts(timestamp_us: u64) -> (ts: u32)
    requires
        timestamp_us * 9 <= u64::MAX,
    ensures
        ts == video_ticks(timestamp_us as int),
{
    ((timestamp_us * 9) / 100 % 0x1_0000_0000) as u32
}

/// A time in microseconds on the sound clock.
pub fn audio_rtp_ts(timestamp_us: u64) -> (ts: u32)
    requires
        timestamp_us * 48 <= u64::MAX,
    ensures
        ts == audio_ticks(timestamp_us as int),
{
    ((timestamp_us * 48) / 1_000 % 0x1_0000_0000) as u32
}

/// The low 24 bits of a time in microseconds on the video clock.
pub open spec fn send_ticks(us: int) -> u32 {
    ((us * 9 / 100) % 0x100_0000) as u32
}

/// The low 24 bits of a time in microseconds on the video clock.
pub fn abs_send_time_90khz(now_us: u64) -> (ticks: u32)
    requires
        now_us * 9 <= u64::MAX,
    ensures
        ticks == send_ticks(now_us as int),
        ticks < 0x100_0000,
{
    ((now_us * 9) / 100 % 0x100_0000) as u32
}

/// The header of a packet.
pub open spec fn header_bytes(
    pt: u8,
    seq: u16,
    ts: u32,
    ssrc: u32,
    marker: bool,
    ext: bool,
) -> Seq<u8> {
    seq![
        if ext {
            0x90u8
        } else {
            0x80
        },
        if marker {
            pt | 0x80
        } else {
            pt
        },
    ] + be_bytes(seq as nat, 2) + be_bytes(ts as nat, 4) + be_bytes(ssrc as nat, 4)
}

/// The header of a packet: version two, no padding, no contributing sources,
/// the extension bit, the marker, and the numbers most significant byte first.
pub fn rtp_header(pt: u8, seq: u16, ts: u32, ssrc: u32, marker: bool, ext: bool) -> (h: Vec<u8>)
    ensures
        h@ == header_bytes(pt, seq, ts, ssrc, marker, ext),
        h@.len() == 12,
{
    let mut h: Vec<u8> = Vec::new();
    h.push(
        if ext {
            0x90u8
        } else {
            0x80
        },
    );
    h.push(
        if marker {
            pt | 0x80
        } else {
            pt
        },
    );
    push_be(&mut h, seq as u64, 2);
    push_be(&mut h, ts as u64, 4);
    push_be(&mut h, ssrc as u64, 4);
    proof {
        lemma_be_bytes_len(seq as nat, 2);
        lemma_be_bytes_len(ts as nat, 4);
        lemma_be_bytes_len(ssrc as nat, 4);
        assert(h@ =~= header_bytes(pt, seq, ts, ssrc, marker, ext));
    }
    h
}

/// What a receiver reads out of a header is what the sender put in.
pub proof fn header_is_read_back(pt: u8, seq: u16, ts: u32, ssrc: u32, marker: bool, ext: bool)
    requires
        pt < 128,
    ensures
        ({
            let h = header_bytes(pt, seq, ts, ssrc, marker, ext);
            &&& h.len() == 12
            &&& h[0] & 0xc0 == 0x80
            &&& (h[0] & 0x10 != 0) == ext
            &&& (h[1] & 0x80 != 0) == marker
            &&& h[1] & 0x7f == pt
            &&& be_value(h.subrange(2, 4)) == seq
            &&& be_value(h.subrange(4, 8)) == ts
            &&& be_value(h.subrange(8, 12)) == ssrc
        }),
{
    let h = header_bytes(pt, seq, ts, ssrc, marker, ext);
    lemma_be_bytes_len(seq as nat, 2);
    lemma_be_bytes_len(ts as nat, 4);
    lemma_be_bytes_len(ssrc as nat, 4);
    lemma_pow256_small();
    be_bytes_round_trip(seq as nat, 2);
    be_bytes_round_trip(ts as nat, 4);
    be_bytes_round_trip(ssrc as nat, 4);
    assert(h.subrange(2, 4) =~= be_bytes(seq as nat, 2));
    assert(h.subrange(4, 8) =~= be_bytes(ts as nat, 4));
    assert(h.subrange(8, 12) =~= be_bytes(ssrc as nat, 4));
    assert(0x90u8 & 0xc0 == 0x80 && 0x90u8 & 0x10 != 0 && 0x80u8 & 0xc0 == 0x80 && 0x80u8 & 0x10
        == 0) by (bit_vector);
    assert(pt < 128 ==> (pt | 0x80) & 0x80 != 0 && (pt | 0x80) & 0x7f == pt && pt & 0x80 == 0 && pt
        & 0x7f == pt) by (bit_vector);
}

/// The extension with the time of sending: a profile, a length of one word,
/// element three with three bytes, and the low 24 bits of the time.
pub open spec fn extension_bytes(ticks: u32) -> Seq<u8> {
    seq![0xbeu8, 0xde, 0, 1, 0x32] + be_bytes(ticks as nat, 3)
}

/// The extension with the time of sending.
pub fn cast_rtp_extension(abs_send_time_90khz: u32) -> (ext: Vec<u8>)
    ensures
        ext@ == extension_bytes(abs_send_time_90khz),
        ext@.len() == 8,
{
    let mut ext: Vec<u8> = vec![0xbeu8, 0xde, 0, 1, 0x32];
    push_be(&mut ext, abs_send_time_90khz as u64, 3);
    proof {
        lemma_be_bytes_len(abs_send_time_90khz as nat, 3);
        assert(ext@ =~= extension_bytes(abs_send_time_90khz));
    }
    ext
}

/// The counter block of a packet: stream, frame and packet number.
pub open spec fn counter_block(ssrc: u32, frame_id: u32, packet_id: u16) -> Seq<u8> {
    be_bytes(ssrc as nat, 4) + seq![0u8, 0, 0, 0] + be_bytes(frame_id as nat, 4) + be_bytes(
        packet_id as nat,
        2,
    ) + seq![0u8, 0]
}

/// The initial counter of a packet: the mask combined with the counter block.
pub open spec fn packet_iv(mask: Seq<u8>, ssrc: u32, frame_id: u32, packet_id: u16) -> Seq<u8> {
    xored(mask, counter_block(ssrc, frame_id, packet_id))
}

pub proof fn lemma_counter_block_len(ssrc: u32, frame_id: u32, packet_id: u16)
    ensures
        counter_block(ssrc, frame_id, packet_id).len() == 16,
{
    lemma_be_bytes_len(ssrc as nat, 4);
    lemma_be_bytes_len(frame_id as nat, 4);
    lemma_be_bytes_len(packet_id as nat, 2);
}

/// The initial counter of a packet.
pub fn cast_iv(iv_mask: &[u8], ssrc: u32, frame_id: u32, packet_id: u16) -> (iv: Vec<u8>)
    requires
        iv_mask@.len() == 16,
    ensures
        iv@ == packet_iv(iv_mask@, ssrc, frame_id, packet_id),
        iv@.len() == 16,
{
    let mut counter: Vec<u8> = Vec::new();
    push_be(&mut counter, ssrc as u64, 4);
    push_be(&mut counter, 0, 4);
    push_be(&mut counter, frame_id as u64, 4);
    push_be(&mut counter, packet_id as u64, 2);
    push_be(&mut counter, 0, 2);
    proof {
        lemma_counter_block_len(ssrc, frame_id, packet_id);
        reveal_with_fuel(be_bytes, 5);
        assert(be_bytes(0, 4) =~= seq![0u8, 0, 0, 0]);
        assert(be_bytes(0, 2) =~= seq![0u8, 0]);
        assert(counter@ =~= counter_block(ssrc, frame_id, packet_id));
    }
    xor_bytes(iv_mask, counter.as_slice())
}

/// Under one mask no two packets have the same initial counter, unless they
/// have the same stream, frame and packet number.
pub proof fn counters_are_distinct(
    mask: Seq<u8>,
    ssrc1: u32,
    frame1: u32,
    packet1: u16,
    ssrc2: u32,
    frame2: u32,
    packet2: u16,
)
    requires
        mask.len() == 16,
        packet_iv(mask, ssrc1, frame1, packet1) == packet_iv(mask, ssrc2, frame2, packet2),
    ensures
        ssrc1 == ssrc2,
        frame1 == frame2,
        packet1 == packet2,
{
    let a = counter_block(ssrc1, frame1, packet1);
    let b = counter_block(ssrc2, frame2, packet2);
    lemma_counter_block_len(ssrc1, frame1, packet1);
    lemma_counter_block_len(ssrc2, frame2, packet2);
    assert forall|i: int| 0 <= i < 16 implies a[i] == b[i] by {
        let m = mask[i];
        let x = a[i];
        let y = b[i];
        assert(xored(mask, a)[i] == m ^ x);
        assert(xored(mask, b)[i] == m ^ y);
        assert(m ^ x == m ^ y ==> x == y) by (bit_vector);
    }
    assert(a =~= b);
    lemma_be_bytes_len(ssrc1 as nat, 4);
    lemma_be_bytes_len(ssrc2 as nat, 4);
    lemma_be_bytes_len(frame1 as nat, 4);
    lemma_be_bytes_len(frame2 as nat, 4);
    lemma_be_bytes_len(packet1 as nat, 2);
    lemma_be_bytes_len(packet2 as nat, 2);
    assert(a.subrange(0, 4) =~= be_bytes(ssrc1 as nat, 4));
    assert(b.subrange(0, 4) =~= be_bytes(ssrc2 as nat, 4));
    assert(a.subrange(8, 12) =~= be_bytes(frame1 as nat, 4));
    assert(b.subrange(8, 12) =~= be_bytes(frame2 as nat, 4));
    assert(a.subrange(12, 14) =~= be_bytes(packet1 as nat, 2));
    assert(b.subrange(12, 14) =~= be_bytes(packet2 as nat, 2));
    lemma_pow256_small();
    be_bytes_round_trip(ssrc1 as nat, 4);
    be_bytes_round_trip(ssrc2 as nat, 4);
    be_bytes_round_trip(frame1 as nat, 4);
    be_bytes_round_trip(frame2 as nat, 4);
    be_bytes_round_trip(packet1 as nat, 2);
    be_bytes_round_trip(packet2 as nat, 2);
}

/// The extension, where a packet has one.
pub open spec fn extension_part(ext: Option<u32>) -> Seq<u8> {
    match ext {
        Some(ticks) => extension_bytes(ticks),
        None => Seq::empty(),
    }
}

/// A packet: header, extension and encrypted payload.
pub open spec fn packet_bytes(
    pt: u8,
    seq: u16,
    ts: u32,
    ssrc: u32,
    marker: bool,
    ext: Option<u32>,
    key: Seq<u8>,
    iv: Seq<u8>,
    payload: Seq<u8>,
) -> Seq<u8> {
    header_bytes(pt, seq, ts, ssrc, marker, ext is Some) + extension_part(ext)
        + aes128_ctr_stream(key, iv, payload)
}

/// A packet: header, the time of sending where it is given, and the payload
/// encrypted.
pub fn rtp_packet(
    pt: u8,
    seq: u16,
    ts: u32,
    ssrc: u32,
    marker: bool,
    ext: Option<u32>,
    key: &[u8],
    iv: &[u8],
    payload: &[u8],
) -> (pkt: Vec<u8>)
    requires
        key@.len() == 16,
        iv@.len() == 16,
    ensures
        pkt@ == packet_bytes(pt, seq, ts, ssrc, marker, ext, key@, iv@, payload@),
        pkt@.len() == 12 + (if ext is Some {
            8int
        } else {
            0
        }) + payload@.len(),
        aes128_ctr_stream(
            key@,
            iv@,
            pkt@.skip(
                12 + (if ext is Some {
                    8int
                } else {
                    0
                }),
            ),
        ) == payload@,
{
    let mut pkt: Vec<u8> = rtp_header(pt, seq, ts, ssrc, marker, ext.is_some());
    match ext {
        Some(ticks) => {
            let block: Vec<u8> = cast_rtp_extension(ticks);
            push_all(&mut pkt, block.as_slice());
        },
        None => {},
    }
    let body: Vec<u8> = aes128_ctr(key, iv, payload);
    let ghost head = pkt@;
    push_all(&mut pkt, body.as_slice());
    proof {
        assert(pkt@ =~= packet_bytes(pt, seq, ts, ssrc, marker, ext, key@, iv@, payload@));
        assert(pkt@.skip(head.len() as int) =~= body@);
    }
    pkt
}

/// A video packet with one whole unit.
pub fn rtp_single_nal(
    seq: u16,
    ts: u32,
    ssrc: u32,
    marker: bool,
    nal: &[u8],
    key: &[u8],
    iv: &[u8],
    ext: Option<u32>,
) -> (pkt: Vec<u8>)
    requires
        key@.len() == 16,
        iv@.len() == 16,
    ensures
        pkt@ == packet_bytes(
            VIDEO_RTP_PAYLOAD_TYPE,
            seq,
            ts,
            ssrc,
            marker,
            ext,
            key@,
            iv@,
            nal@,
        ),
        pkt@.len() == 12 + (if ext is Some {
            8int
        } else {
            0
        }) + nal@.len(),
        aes128_ctr_stream(
            key@,
            iv@,
            pkt@.skip(
                12 + (if ext is Some {
                    8int
                } else {
                    0
                }),
            ),
        ) == nal@,
{
    rtp_packet(VIDEO_RTP_PAYLOAD_TYPE, seq, ts, ssrc, marker, ext, key, iv, nal)
}

/// The two bytes in front of a fragment: the importance of the unit with the
/// type of fragments, and whether the fragment starts or ends the unit with
/// the type of the unit.
pub open spec fn fragment_head(nal_hdr: u8, start: bool, end: bool) -> Seq<u8> {
    seq![
        (nal_hdr & 0x60) | 28,
        (if start {
            0x80u8
        } else {
            0
        }) | (if end {
            0x40u8
        } else {
            0
        }) | (nal_hdr & 0x1f),
    ]
}

/// A video packet with a fragment of a unit.
pub fn rtp_fua(
    seq: u16,
    ts: u32,
    ssrc: u32,
    marker: bool,
    nal_hdr: u8,
    fragment: &[u8],
    start: bool,
    end: bool,
    key: &[u8],
    iv: &[u8],
    ext: Option<u32>,
) -> (pkt: Vec<u8>)
    requires
        key@.len() == 16,
        iv@.len() == 16,
    ensures
        pkt@ == packet_bytes(
            VIDEO_RTP_PAYLOAD_TYPE,
            seq,
            ts,
            ssrc,
            marker,
            ext,
            key@,
            iv@,
            fragment_head(nal_hdr, start, end) + fragment@,
        ),
        pkt@.len() == 12 + (if ext is Some {
            8int
        } else {
            0
        }) + 2 + fragment@.len(),
        aes128_ctr_stream(
            key@,
            iv@,
            pkt@.skip(
                12 + (if ext is Some {
                    8int
                } else {
                    0
                }),
            ),
        ) == fragment_head(nal_hdr, start, end) + fragment@,
{
    let mut payload: Vec<u8> = Vec::new();
    payload.push((nal_hdr & 0x60) | 28);
    let s: u8 = if start {
        0x80u8
    } else {
        0
    };
    let e: u8 = if end {
        0x40u8
    } else {
        0
    };
    payload.push(s | e | (nal_hdr & 0x1f));
    push_all(&mut payload, fragment);
    assert(payload@ =~= fragment_head(nal_hdr, start, end) + fragment@);
    rtp_packet(VIDEO_RTP_PAYLOAD_TYPE, seq, ts, ssrc, marker, ext, key, iv, payload.as_slice())
}

/// A receiver gets the first byte of a unit back from the two bytes in front
/// of any of its fragments, but for the top bit, and sees which fragment
/// starts and which ends the unit.
pub proof fn fragment_head_is_read_back(nal_hdr: u8, start: bool, end: bool)
    ensures
        ({
            let h = fragment_head(nal_hdr, start, end);
            &&& h[0] & 0x1f == 28
            &&& (h[0] & 0x60) | (h[1] & 0x1f) == nal_hdr & 0x7f
            &&& (h[1] & 0x80 != 0) == start
            &&& (h[1] & 0x40 != 0) == end
        }),
{
    let s: u8 = if start {
        0x80u8
    } else {
        0
    };
    let e: u8 = if end {
        0x40u8
    } else {
        0
    };
    assert(((nal_hdr & 0x60) | 28) & 0x1f == 28) by (bit_vector);
    assert((((nal_hdr & 0x60) | 28) & 0x60) | ((s | e | (nal_hdr & 0x1f)) & 0x1f) == nal_hdr & 0x7f)
        by (bit_vector)
        requires
            s == 0x80 || s == 0,
            e == 0x40 || e == 0,
    ;
    assert(((s | e | (nal_hdr & 0x1f)) & 0x80 != 0) == (s == 0x80)) by (bit_vector)
        requires
            s == 0x80 || s == 0,
            e == 0x40 || e == 0,
    ;
    assert(((s | e | (nal_hdr & 0x1f)) & 0x40 != 0) == (e == 0x40)) by (bit_vector)
        requires
            s == 0x80 || s == 0,
            e == 0x40 || e == 0,
    ;
}

/// The seconds from the epoch of NTP to that of Unix.
pub const NTP_UNIX_OFFSET_S: u64 = 2_208_988_800;

/// The seconds of NTP at a time in seconds since the Unix epoch, their low 32
/// bits.
pub open spec fn ntp_seconds(secs: int) -> u32 {
    ((secs + NTP_UNIX_OFFSET_S) % 0x1_0000_0000) as u32
}

/// Nanoseconds as a fraction of a second in 32 bits.
pub open spec fn ntp_fraction(nanos: int) -> u32 {
    (nanos * 0x1_0000_0000 / 1_000_000_000) as u32
}

/// A time since the Unix epoch as an NTP time: seconds, and a fraction of a
/// second in 32 bits.
pub fn system_time_ntp(secs: u64, subsec_nanos: u32) -> (ntp: (u32, u32))
    requires
        secs + NTP_UNIX_OFFSET_S <= u64::MAX,
        subsec_nanos < 1_000_000_000,
    ensures
        ntp.0 == (secs + NTP_UNIX_OFFSET_S) % 0x1_0000_0000,
        ntp.1 == subsec_nanos as int * 0x1_0000_0000 / 1_000_000_000,
        ntp == (ntp_seconds(secs as int), ntp_fraction(subsec_nanos as int)),
{
    let sec: u64 = (secs + NTP_UNIX_OFFSET_S) % 0x1_0000_0000;
    let frac: u64 = subsec_nanos as u64 * 0x1_0000_0000 / 1_000_000_000;
    (sec as u32, frac as u32)
}

/// A sender report without reception reports.
pub open spec fn report_bytes(
    ssrc: u32,
    ntp_sec: u32,
    ntp_frac: u32,
    rtp_ts: u32,
    pkt_count: u32,
    byte_count: u32,
) -> Seq<u8> {
    seq![0x80u8, RTCP_PT_SR, 0, 6] + be_bytes(ssrc as nat, 4) + be_bytes(ntp_sec as nat, 4)
        + be_bytes(ntp_frac as nat, 4) + be_bytes(rtp_ts as nat, 4) + be_bytes(
        pkt_count as nat,
        4,
    ) + be_bytes(byte_count as nat, 4)
}

/// A sender report without reception reports, of 28 bytes.
pub fn rtcp_sr(
    ssrc: u32,
    ntp_sec: u32,
    ntp_frac: u32,
    rtp_ts: u32,
    pkt_count: u32,
    byte_count: u32,
) -> (pkt: Vec<u8>)
    ensures
        pkt@ == report_bytes(ssrc, ntp_sec, ntp_frac, rtp_ts, pkt_count, byte_count),
        pkt@.len() == 28,
{
    let mut pkt: Vec<u8> = vec![0x80u8, RTCP_PT_SR, 0, 6];
    push_be(&mut pkt, ssrc as u64, 4);
    push_be(&mut pkt, ntp_sec as u64, 4);
    push_be(&mut pkt, ntp_frac as u64, 4);
    push_be(&mut pkt, rtp_ts as u64, 4);
    push_be(&mut pkt, pkt_count as u64, 4);
    push_be(&mut pkt, byte_count as u64, 4);
    proof {
        lemma_be_bytes_len(ssrc as nat, 4);
        lemma_be_bytes_len(ntp_sec as nat, 4);
        lemma_be_bytes_len(ntp_frac as nat, 4);
        lemma_be_bytes_len(rtp_ts as nat, 4);
        lemma_be_bytes_len(pkt_count as nat, 4);
        lemma_be_bytes_len(byte_count as nat, 4);
        assert(pkt@ =~= report_bytes(ssrc, ntp_sec, ntp_frac, rtp_ts, pkt_count, byte_count));
    }
    pkt
}

/// Whether a packet asks for a new picture of the stream: version two without
/// padding, format one, the type of payload feedback, and the stream's number.
pub open spec fn asks_for_picture(pkt: Seq<u8>, video_ssrc: u32) -> bool {
    &&& pkt.len() >= 12
    &&& pkt[0] == 0x81
    &&& pkt[1] == RTCP_PT_PSFB
    &&& be_value(pkt.subrange(8, 12)) == video_ssrc
}

/// Whether a packet asks for a new picture of the stream.
pub fn is_rtcp_pli(pkt: &[u8], video_ssrc: u32) -> (asks: bool)
    ensures
        asks == asks_for_picture(pkt@, video_ssrc),
{
    if pkt.len() < 12 {
        return false;
    }
    let b: u8 = pkt[0];
    assert((b & 0xe0 == 0x80 && b & 0x1f == 1) <==> b == 0x81) by (bit_vector);
    b & 0xe0 == 0x80 && b & 0x1f == 1 && pkt[1] == RTCP_PT_PSFB && read_be(pkt, 8, 4)
        == video_ssrc as u64
}

/// How long the start code at `i` is; zero where there is none.
pub open spec fn unit_mark(data: Seq<u8>, i: int) -> int {
    if i < 0 || i + 2 >= data.len() || data[i] != 0 || data[i + 1] != 0 {
        0
    } else if i + 3 < data.len() && data[i + 2] == 0 && data[i + 3] == 1 {
        4
    } else if data[i + 2] == 1 {
        3
    } else {
        0
    }
}

/// `end` moved before the zero bytes in front of it, down to `start`.
pub open spec fn without_zeros(data: Seq<u8>, start: int, end: int) -> int
    decreases end - start,
{
    if end > start && 0 < end <= data.len() && data[end - 1] == 0 {
        without_zeros(data, start, end - 1)
    } else {
        end
    }
}

/// The unit from `start` to the start code at `i`, zero bytes at its end cut
/// off, if anything is left.
pub open spec fn closed_unit(data: Seq<u8>, start: Option<int>, i: int) -> Seq<(int, int)> {
    match start {
        Some(s) => if without_zeros(data, s, i) > s {
            seq![(s, without_zeros(data, s, i))]
        } else {
            Seq::empty()
        },
        None => Seq::empty(),
    }
}

/// The units from `i` on, where `start` is the start of the one that is open.
pub open spec fn units_from(data: Seq<u8>, i: int, start: Option<int>) -> Seq<(int, int)>
    decreases data.len() - i,
{
    if i < 0 || i + 2 >= data.len() {
        match start {
            Some(s) => if s < data.len() {
                seq![(s, data.len() as int)]
            } else {
                Seq::empty()
            },
            None => Seq::empty(),
        }
    } else if unit_mark(data, i) > 0 {
        let next = i + unit_mark(data, i);
        closed_unit(data, start, i) + units_from(data, next, Some(next))
    } else {
        units_from(data, i + 1, start)
    }
}

/// Whether a start code of three bytes stands at `p`.
pub open spec fn mark_at(data: Seq<u8>, p: int) -> bool {
    0 <= p && p + 2 < data.len() && data[p] == 0 && data[p + 1] == 0 && data[p + 2] == 1
}

proof fn lemma_without_zeros(data: Seq<u8>, start: int, end: int)
    requires
        start <= end,
    ensures
        start <= without_zeros(data, start, end) <= end,
        0 <= start && end <= data.len() ==> forall|q: int|
            without_zeros(data, start, end) <= q < end ==> #[trigger] data[q] == 0,
        0 <= start && end <= data.len() && without_zeros(data, start, end) > start
            ==> data[without_zeros(data, start, end) - 1] != 0,
    decreases end - start,
{
    if end > start && 0 < end <= data.len() && data[end - 1] == 0 {
        lemma_without_zeros(data, start, end - 1);
    }
}

/// Whether a unit is not empty, lies within the stream from `from` on, and
/// holds no start code.
pub open spec fn is_clean_unit(data: Seq<u8>, from: int, unit: (int, int)) -> bool {
    &&& from <= unit.0 < unit.1 <= data.len()
    &&& forall|p: int| unit.0 <= p && p + 2 < unit.1 ==> !#[trigger] mark_at(data, p)
}

/// Where the units of a scan can start.
spec fn unit_floor(i: int, start: Option<int>) -> int {
    match start {
        Some(s) => s,
        None => i,
    }
}

proof fn lemma_units(data: Seq<u8>, i: int, start: Option<int>)
    requires
        0 <= i,
        start matches Some(s) ==> 0 <= s <= i && forall|p: int|
            s <= p < i ==> !#[trigger] mark_at(data, p),
    ensures
        forall|k: int|
            0 <= k < units_from(data, i, start).len() ==> #[trigger] is_clean_unit(
                data,
                unit_floor(i, start),
                units_from(data, i, start)[k],
            ),
    decreases data.len() - i,
{
    let from = unit_floor(i, start);
    let all = units_from(data, i, start);
    if i + 2 >= data.len() {
        assert forall|k: int| 0 <= k < all.len() implies #[trigger] is_clean_unit(
            data,
            from,
            all[k],
        ) by {
            assert(all[k] == (start->0, data.len() as int));
        }
    } else if unit_mark(data, i) > 0 {
        let next = i + unit_mark(data, i);
        lemma_units(data, next, Some(next));
        let rest = units_from(data, next, Some(next));
        let closed = closed_unit(data, start, i);
        if start is Some {
            lemma_without_zeros(data, start->0, i);
        }
        assert forall|k: int| 0 <= k < all.len() implies #[trigger] is_clean_unit(
            data,
            from,
            all[k],
        ) by {
            if k >= closed.len() {
                assert(all[k] == rest[k - closed.len()]);
                assert(is_clean_unit(data, unit_floor(next, Some(next)), rest[k - closed.len()]));
            } else {
                assert(all[k] == closed[k]);
            }
        }
    } else {
        assert(!mark_at(data, i));
        lemma_units(data, i + 1, start);
        let rest = units_from(data, i + 1, start);
        assert forall|k: int| 0 <= k < all.len() implies #[trigger] is_clean_unit(
            data,
            from,
            all[k],
        ) by {
            assert(is_clean_unit(data, unit_floor(i + 1, start), rest[k]));
        }
    }
}

/// No unit of a stream is empty, and none holds a start code.
pub proof fn units_are_clean(data: Seq<u8>, k: int)
    requires
        0 <= k < units_from(data, 0, None).len(),
    ensures
        is_clean_unit(data, 0, units_from(data, 0, None)[k]),
{
    lemma_units(data, 0, None);
    assert(is_clean_unit(data, unit_floor(0, None), units_from(data, 0, None)[k]));
}

/// Whether nothing but zero bytes stands from `end` to the start code of three
/// bytes at `p`.
pub open spec fn zeros_to_mark(data: Seq<u8>, end: int, p: int) -> bool {
    &&& end <= p
    &&& mark_at(data, p)
    &&& forall|q: int| end <= q < p ==> #[trigger] data[q] == 0
}

/// Whether the `k`-th unit ends with the stream, or with a byte that is not
/// zero and is followed by a start code, with zero bytes at most in between;
/// the next unit begins behind that start code.
pub open spec fn ends_in_place(data: Seq<u8>, units: Seq<(int, int)>, k: int) -> bool {
    let end = units[k].1;
    ||| k + 1 == units.len() && end == data.len()
    ||| data[end - 1] != 0 && exists|p: int| #[trigger]
        zeros_to_mark(data, end, p) && (k + 1 < units.len() ==> p + 3 <= units[k + 1].0)
}

/// Whether the `k`-th unit begins right behind a start code, and ends where it
/// should.
pub open spec fn is_placed(data: Seq<u8>, units: Seq<(int, int)>, k: int) -> bool {
    mark_at(data, units[k].0 - 3) && ends_in_place(data, units, k)
}

proof fn lemma_placed(data: Seq<u8>, i: int, start: Option<int>)
    requires
        0 <= i,
        start matches Some(s) ==> 0 <= s <= i && mark_at(data, s - 3) && forall|p: int|
            s <= p < i ==> !#[trigger] mark_at(data, p),
    ensures
        forall|k: int|
            0 <= k < units_from(data, i, start).len() ==> #[trigger] is_placed(
                data,
                units_from(data, i, start),
                k,
            ),
    decreases data.len() - i,
{
    let all = units_from(data, i, start);
    if i + 2 >= data.len() {
        assert forall|k: int| 0 <= k < all.len() implies #[trigger] is_placed(data, all, k) by {
            assert(all[k] == (start->0, data.len() as int));
        }
    } else if unit_mark(data, i) > 0 {
        let next = i + unit_mark(data, i);
        let mark = next - 3;
        assert(mark_at(data, mark));
        let rest = units_from(data, next, Some(next));
        let closed = closed_unit(data, start, i);
        lemma_placed(data, next, Some(next));
        lemma_units(data, next, Some(next));
        if start is Some {
            lemma_without_zeros(data, start->0, i);
        }
        assert forall|k: int| 0 <= k < all.len() implies #[trigger] is_placed(data, all, k) by {
            if k < closed.len() {
                assert(all[k] == closed[k]);
                assert(zeros_to_mark(data, all[k].1, mark));
                if k + 1 < all.len() {
                    assert(all[k + 1] == rest[0]);
                    assert(is_clean_unit(data, unit_floor(next, Some(next)), rest[0]));
                }
            } else {
                let j = k - closed.len();
                assert(all[k] == rest[j]);
                assert(is_placed(data, rest, j));
                if k + 1 < all.len() {
                    assert(all[k + 1] == rest[j + 1]);
                }
                if !(j + 1 == rest.len() && rest[j].1 == data.len()) {
                    let p = choose|p: int| #[trigger]
                        zeros_to_mark(data, rest[j].1, p) && (j + 1 < rest.len() ==> p + 3
                            <= rest[j + 1].0);
                    assert(zeros_to_mark(data, all[k].1, p));
                }
            }
        }
    } else {
        assert(!mark_at(data, i));
        lemma_placed(data, i + 1, start);
        let rest = units_from(data, i + 1, start);
        assert forall|k: int| 0 <= k < all.len() implies #[trigger] is_placed(data, all, k) by {
            assert(is_placed(data, rest, k));
        }
    }
}

/// The units stand in the order of the stream and do not overlap. Each begins
/// right behind a start code, and ends before the zero bytes in front of the
/// next one or with the stream.
pub proof fn units_stand_in_order(data: Seq<u8>, k: int)
    requires
        0 <= k < units_from(data, 0, None).len(),
    ensures
        ({
            let units = units_from(data, 0, None);
            &&& is_placed(data, units, k)
            &&& forall|j: int| 0 <= j < k ==> (#[trigger] units[j]).1 + 3 <= units[k].0
        }),
    decreases k,
{
    let units = units_from(data, 0, None);
    lemma_placed(data, 0, None);
    assert(is_placed(data, units, k));
    if k > 0 {
        units_stand_in_order(data, k - 1);
        units_are_clean(data, k - 1);
        units_are_clean(data, k);
        assert(is_placed(data, units, k - 1));
    }
}

/// Whether a byte lies in one of the units.
pub open spec fn in_unit(units: Seq<(int, int)>, q: int) -> bool {
    exists|k: int| 0 <= k < units.len() && (#[trigger] units[k]).0 <= q < units[k].1
}

proof fn lemma_in_unit(a: Seq<(int, int)>, b: Seq<(int, int)>, q: int)
    requires
        in_unit(b, q),
    ensures
        in_unit(a + b, q),
{
    let k = choose|k: int| 0 <= k < b.len() && (#[trigger] b[k]).0 <= q < b[k].1;
    assert((a + b)[a.len() + k] == b[k]);
}

proof fn lemma_held(data: Seq<u8>, i: int, s: int, q: int)
    requires
        0 <= s <= i,
        s <= q < data.len(),
        data[q] != 0,
    ensures
        in_unit(units_from(data, i, Some(s)), q) || mark_at(data, q - 2),
    decreases data.len() - i,
{
    let all = units_from(data, i, Some(s));
    if i + 2 >= data.len() {
        assert(all[0] == (s, data.len() as int));
    } else if unit_mark(data, i) > 0 {
        let next = i + unit_mark(data, i);
        let closed = closed_unit(data, Some(s), i);
        let rest = units_from(data, next, Some(next));
        lemma_without_zeros(data, s, i);
        if q < i {
            assert(closed[0] == (s, without_zeros(data, s, i)));
            assert(all[0] == closed[0]);
        } else if q >= next {
            lemma_held(data, next, next, q);
            if in_unit(rest, q) {
                lemma_in_unit(closed, rest, q);
            }
        }
    } else {
        lemma_held(data, i + 1, s, q);
    }
}

proof fn lemma_held_behind(data: Seq<u8>, i: int, p: int, q: int)
    requires
        0 <= i <= p,
        mark_at(data, p),
        p + 3 <= q < data.len(),
        data[q] != 0,
    ensures
        in_unit(units_from(data, i, None), q) || mark_at(data, q - 2),
    decreases data.len() - i,
{
    if unit_mark(data, i) > 0 {
        let next = i + unit_mark(data, i);
        let rest = units_from(data, next, Some(next));
        lemma_held(data, next, next, q);
        assert(units_from(data, i, None) =~= rest);
    } else {
        lemma_held_behind(data, i + 1, p, q);
    }
}

/// Nothing is lost: behind the first start code every byte that is not zero
/// lies in a unit, or is the last one of a start code.
pub proof fn units_hold_everything(data: Seq<u8>, p: int, q: int)
    requires
        mark_at(data, p),
        p + 3 <= q < data.len(),
        data[q] != 0,
    ensures
        in_unit(units_from(data, 0, None), q) || mark_at(data, q - 2),
{
    lemma_held_behind(data, 0, p, q);
}

/// The ranges of the units of an Annex B stream, without start codes. What
/// stands before the first start code is no unit; zero bytes in front of a
/// start code belong to it.
pub fn annexb_nal_units(data: &[u8]) -> (units: Vec<(usize, usize)>)
    ensures
        units@.map_values(|u: (usize, usize)| (u.0 as int, u.1 as int)) == units_from(
            data@,
            0,
            None,
        ),
        forall|k: int|
            0 <= k < units@.len() ==> (#[trigger] units@[k]).0 < units@[k].1 <= data@.len(),
{
    let ghost view = |u: (usize, usize)| (u.0 as int, u.1 as int);
    let len: usize = data.len();
    let mut units: Vec<(usize, usize)> = Vec::new();
    let mut i: usize = 0;
    let mut open: Option<usize> = None;
    let ghost all = units_from(data@, 0, None);
    assert(units@.map_values(view) + all =~= all);
    while i < len && len - i > 2
        invariant
            view == (|u: (usize, usize)| (u.0 as int, u.1 as int)),
            len == data@.len(),
            i <= len,
            open matches Some(s) ==> s <= i,
            forall|k: int|
                0 <= k < units@.len() ==> (#[trigger] units@[k]).0 < units@[k].1 <= data@.len(),
            units@.map_values(view) + units_from(
                data@,
                i as int,
                match open {
                    Some(s) => Some(s as int),
                    None => None,
                },
            ) == all,
        decreases len - i,
    {
        let mark: usize = if data[i] == 0 && data[i + 1] == 0 {
            if len - i > 3 && data[i + 2] == 0 && data[i + 3] == 1 {
                4
            } else if data[i + 2] == 1 {
                3
            } else {
                0
            }
        } else {
            0
        };
        assert(mark == unit_mark(data@, i as int));
        if mark > 0 {
            let ghost before = units@;
            let ghost start = match open {
                Some(s) => Some(s as int),
                None => None,
            };
            match open {
                Some(s) => {
                    let mut end: usize = i;
                    while end > s && data[end - 1] == 0
                        invariant
                            s <= end <= i <= data@.len(),
                            without_zeros(data@, s as int, end as int) == without_zeros(
                                data@,
                                s as int,
                                i as int,
                            ),
                        decreases end,
                    {
                        end = end - 1;
                    }
                    if end > s {
                        units.push((s, end));
                        assert(units@.map_values(view) =~= before.map_values(view).push(
                            (s as int, end as int),
                        ));
                    }
                },
                None => {},
            }
            proof {
                let next = i + mark;
                assert(units@.map_values(view) =~= before.map_values(view) + closed_unit(
                    data@,
                    start,
                    i as int,
                ));
                assert(units@.map_values(view) + units_from(data@, next, Some(next))
                    =~= before.map_values(view) + units_from(data@, i as int, start));
            }
            open = Some(i + mark);
            i = i + mark;
        } else {
            i = i + 1;
        }
    }
    let ghost before = units@;
    match open {
        Some(s) => {
            if s < len {
                units.push((s, len));
                assert(units@.map_values(view) =~= before.map_values(view).push(
                    (s as int, len as int),
                ));
            }
        },
        None => {},
    }
    assert(units@.map_values(view) =~= all);
    units
}

/// The numbers that sender and receiver of the protocol have agreed on.
pub proof fn numbers_are_the_protocols()
    ensures
        VIDEO_RTP_PAYLOAD_TYPE == 96,
        AUDIO_RTP_PAYLOAD_TYPE == 97,
        VIDEO_CLOCK_RATE == 90_000,
        AUDIO_CLOCK_RATE == 48_000,
        RTCP_PT_SR == 200,
        RTCP_PT_PSFB == 206,
        MAX_RTP_PAYLOAD == 1_400,
        NTP_UNIX_OFFSET_S == (70 * 365 + 17) * 86_400,
{
}

/// Whether a 32 bit number counts the time on a clock of `rate` ticks a second
/// to the tick, apart from the wrap.
pub open spec fn counts_ticks(ticks: u32, us: int, rate: int) -> bool {
    exists|full: int| full % 0x1_0000_0000 == ticks && #[trigger] is_tick(full, us, rate)
}

/// Whether a time falls in a tick of the clock of `rate` ticks a second.
pub open spec fn is_tick(tick: int, us: int, rate: int) -> bool {
    tick * 1_000_000 <= us * rate < (tick + 1) * 1_000_000
}

proof fn lemma_quotient(x: int, d: int)
    requires
        d > 0,
    ensures
        (x / d) * d <= x < (x / d + 1) * d,
{
    vstd::arithmetic::div_mod::lemma_fundamental_div_mod(x, d);
    assert((x / d) * d <= x < (x / d + 1) * d) by (nonlinear_arith)
        requires
            x == d * (x / d) + x % d,
            0 <= x % d < d,
    ;
}

/// The time stamps of video count a clock of 90 kHz, those of sound one of
/// 48 kHz, to the tick; the time of sending is the low 24 bits of the former.
pub proof fn clocks_count_to_the_tick(us: int)
    requires
        us >= 0,
    ensures
        counts_ticks(video_ticks(us), us, 90_000),
        counts_ticks(audio_ticks(us), us, 48_000),
        send_ticks(us) == video_ticks(us) % 0x100_0000,
        us * 9 / 100 < 0x1_0000_0000 ==> video_ticks(us) * 100 <= us * 9 < (video_ticks(us) + 1)
            * 100,
        us * 48 / 1000 < 0x1_0000_0000 ==> audio_ticks(us) * 1000 <= us * 48 < (audio_ticks(us)
            + 1) * 1000,
{
    let v = us * 9 / 100;
    let a = us * 48 / 1000;
    lemma_quotient(us * 9, 100);
    lemma_quotient(us * 48, 1000);
    assert(is_tick(v, us, 90_000));
    assert(is_tick(a, us, 48_000));
    assert(v % 0x1_0000_0000 == video_ticks(us));
    assert(a % 0x1_0000_0000 == audio_ticks(us));
}

/// Frames at least 12 microseconds apart, and less than half a day, have
/// different video time stamps; a second later is 90,000 ticks later for video
/// and 48,000 for sound.
pub proof fn later_means_more_ticks(us: int, later: int)
    requires
        0 <= us,
        us + 12 <= later < us + 43_200_000_000,
    ensures
        video_ticks(us) != video_ticks(later),
        video_ticks(us + 1_000_000) == (video_ticks(us) + 90_000) % 0x1_0000_0000,
        audio_ticks(us + 1_000_000) == (audio_ticks(us) + 48_000) % 0x1_0000_0000,
{
    let a = us * 9 / 100;
    let b = later * 9 / 100;
    lemma_quotient(us * 9, 100);
    lemma_quotient(later * 9, 100);
    assert(a < b < a + 0x1_0000_0000);
    lemma_wrapped(a, b, 90_000);
    lemma_wrapped(us * 48 / 1000, us * 48 / 1000 + 1, 48_000);
    assert((us + 1_000_000) * 9 / 100 == a + 90_000);
    assert((us + 1_000_000) * 48 / 1000 == us * 48 / 1000 + 48_000);
}

proof fn lemma_wrapped(a: int, b: int, step: int)
    requires
        a < b < a + 0x1_0000_0000,
    ensures
        a % 0x1_0000_0000 != b % 0x1_0000_0000,
        (a + step) % 0x1_0000_0000 == (a % 0x1_0000_0000 + step) % 0x1_0000_0000,
{
    vstd::arithmetic::div_mod::lemma_mod_equivalence(b, a, 0x1_0000_0000);
    vstd::arithmetic::div_mod::lemma_small_mod((b - a) as nat, 0x1_0000_0000);
    vstd::arithmetic::div_mod::lemma_add_mod_noop_right(step, a, 0x1_0000_0000);
}

/// The NTP time counts seconds from 1900 on and, to the unit, 2^32 units in a
/// second.
pub proof fn ntp_counts_from_1900(secs: int, nanos: int)
    requires
        0 <= secs,
        0 <= nanos < 1_000_000_000,
    ensures
        ntp_seconds(secs) == (secs + 2_208_988_800) % 0x1_0000_0000,
        ntp_seconds(secs + 1) == (ntp_seconds(secs) + 1) % 0x1_0000_0000,
        ntp_fraction(nanos) * 1_000_000_000 <= nanos * 0x1_0000_0000 < (ntp_fraction(nanos) + 1)
            * 1_000_000_000,
{
    lemma_quotient(nanos * 0x1_0000_0000, 1_000_000_000);
}

/// What a receiver reads out of a sender report: version two without padding
/// or reception reports, its type, its length in words less one, and the
/// sender's numbers in the order of the protocol.
pub proof fn report_is_read_back(
    ssrc: u32,
    ntp_sec: u32,
    ntp_frac: u32,
    rtp_ts: u32,
    pkt_count: u32,
    byte_count: u32,
)
    ensures
        ({
            let p = report_bytes(ssrc, ntp_sec, ntp_frac, rtp_ts, pkt_count, byte_count);
            &&& p.len() == 28
            &&& p[0] == 0x80
            &&& p[1] == 200
            &&& (be_value(p.subrange(2, 4)) + 1) * 4 == p.len()
            &&& be_value(p.subrange(4, 8)) == ssrc
            &&& be_value(p.subrange(8, 12)) == ntp_sec
            &&& be_value(p.subrange(12, 16)) == ntp_frac
            &&& be_value(p.subrange(16, 20)) == rtp_ts
            &&& be_value(p.subrange(20, 24)) == pkt_count
            &&& be_value(p.subrange(24, 28)) == byte_count
        }),
{
    let p = report_bytes(ssrc, ntp_sec, ntp_frac, rtp_ts, pkt_count, byte_count);
    lemma_word(ssrc);
    lemma_word(ntp_sec);
    lemma_word(ntp_frac);
    lemma_word(rtp_ts);
    lemma_word(pkt_count);
    lemma_word(byte_count);
    assert(p.subrange(2, 4) =~= seq![0u8, 6]);
    reveal_with_fuel(be_value, 3);
    assert(p.subrange(4, 8) =~= be_bytes(ssrc as nat, 4));
    assert(p.subrange(8, 12) =~= be_bytes(ntp_sec as nat, 4));
    assert(p.subrange(12, 16) =~= be_bytes(ntp_frac as nat, 4));
    assert(p.subrange(16, 20) =~= be_bytes(rtp_ts as nat, 4));
    assert(p.subrange(20, 24) =~= be_bytes(pkt_count as nat, 4));
    assert(p.subrange(24, 28) =~= be_bytes(byte_count as nat, 4));
}

proof fn lemma_word(n: u32)
    ensures
        be_bytes(n as nat, 4).len() == 4,
        be_value(be_bytes(n as nat, 4)) == n,
{
    lemma_be_bytes_len(n as nat, 4);
    lemma_pow256_small();
    be_bytes_round_trip(n as nat, 4);
}

/// What a receiver reads out of the extension: the profile of one byte heads,
/// one word of content, element three with three bytes, and the low 24 bits of
/// the time.
pub proof fn extension_is_read_back(ticks: u32)
    requires
        ticks < 0x100_0000,
    ensures
        ({
            let x = extension_bytes(ticks);
            &&& x.len() == 8
            &&& be_value(x.subrange(0, 2)) == 0xbede
            &&& be_value(x.subrange(2, 4)) * 4 == x.len() - 4
            &&& x[4] / 16 == 3
            &&& x[4] % 16 + 1 == 3
            &&& be_value(x.subrange(5, 8)) == ticks
        }),
{
    let x = extension_bytes(ticks);
    lemma_be_bytes_len(ticks as nat, 3);
    lemma_pow256_small();
    be_bytes_round_trip(ticks as nat, 3);
    reveal_with_fuel(be_value, 3);
    assert(x.subrange(0, 2) =~= seq![0xbeu8, 0xde]);
    assert(x.subrange(2, 4) =~= seq![0u8, 1]);
    assert(x.subrange(5, 8) =~= be_bytes(ticks as nat, 3));
    assert(be_value(seq![0xbeu8, 0xde]) == 0xbede) by {
        assert(seq![0xbeu8, 0xde].drop_last() =~= seq![0xbeu8]);
    }
    assert(be_value(seq![0u8, 1]) == 1) by {
        assert(seq![0u8, 1].drop_last() =~= seq![0u8]);
    }
}

/// A receiver that takes the mask off the initial counter finds the number of
/// the stream in the first four bytes, that of the frame in the third four,
/// that of the packet in the two after them, and zeros everywhere else.
pub proof fn counter_is_read_back(mask: Seq<u8>, ssrc: u32, frame_id: u32, packet_id: u16)
    requires
        mask.len() == 16,
    ensures
        ({
            let b = xored(packet_iv(mask, ssrc, frame_id, packet_id), mask);
            &&& b.len() == 16
            &&& be_value(b.subrange(0, 4)) == ssrc
            &&& b.subrange(4, 8) == seq![0u8, 0, 0, 0]
            &&& be_value(b.subrange(8, 12)) == frame_id
            &&& be_value(b.subrange(12, 14)) == packet_id
            &&& b.subrange(14, 16) == seq![0u8, 0]
        }),
{
    let c = counter_block(ssrc, frame_id, packet_id);
    let b = xored(packet_iv(mask, ssrc, frame_id, packet_id), mask);
    lemma_counter_block_len(ssrc, frame_id, packet_id);
    assert forall|i: int| 0 <= i < 16 implies b[i] == c[i] by {
        let m = mask[i];
        let x = c[i];
        assert((m ^ x) ^ m == x) by (bit_vector);
    }
    assert(b =~= c);
    lemma_word(ssrc);
    lemma_word(frame_id);
    lemma_be_bytes_len(packet_id as nat, 2);
    lemma_pow256_small();
    be_bytes_round_trip(packet_id as nat, 2);
    assert(b.subrange(0, 4) =~= be_bytes(ssrc as nat, 4));
    assert(b.subrange(4, 8) =~= seq![0u8, 0, 0, 0]);
    assert(b.subrange(8, 12) =~= be_bytes(frame_id as nat, 4));
    assert(b.subrange(12, 14) =~= be_bytes(packet_id as nat, 2));
    assert(b.subrange(14, 16) =~= seq![0u8, 0]);
}

/// What a receiver takes a packet apart into: twelve bytes of header, eight of
/// extension where the header says so, and the payload under key and counter.
pub proof fn packet_is_taken_apart(
    pt: u8,
    seq: u16,
    ts: u32,
    ssrc: u32,
    marker: bool,
    ext: Option<u32>,
    key: Seq<u8>,
    iv: Seq<u8>,
    payload: Seq<u8>,
)
    requires
        pt < 128,
    ensures
        ({
            let p = packet_bytes(pt, seq, ts, ssrc, marker, ext, key, iv, payload);
            let head: int = if p[0] & 0x10 != 0 {
                20
            } else {
                12
            };
            &&& (p[0] & 0x10 != 0) == (ext is Some)
            &&& p[0] & 0xc0 == 0x80
            &&& (p[1] & 0x80 != 0) == marker
            &&& p[1] & 0x7f == pt
            &&& be_value(p.subrange(2, 4)) == seq
            &&& be_value(p.subrange(4, 8)) == ts
            &&& be_value(p.subrange(8, 12)) == ssrc
            &&& ext matches Some(t) ==> p.subrange(12, 20) == extension_bytes(t)
            &&& p.len() >= head
            &&& p.skip(head) == aes128_ctr_stream(key, iv, payload)
        }),
{
    let p = packet_bytes(pt, seq, ts, ssrc, marker, ext, key, iv, payload);
    let h = header_bytes(pt, seq, ts, ssrc, marker, ext is Some);
    header_is_read_back(pt, seq, ts, ssrc, marker, ext is Some);
    assert(p[0] == h[0] && p[1] == h[1]);
    assert(p.subrange(2, 4) =~= h.subrange(2, 4));
    assert(p.subrange(4, 8) =~= h.subrange(4, 8));
    assert(p.subrange(8, 12) =~= h.subrange(8, 12));
    match ext {
        Some(t) => {
            lemma_be_bytes_len(t as nat, 3);
            assert(extension_bytes(t).len() == 8);
            assert(p.subrange(12, 20) =~= extension_bytes(t));
            assert(p.skip(20) =~= aes128_ctr_stream(key, iv, payload));
        },
        None => {
            assert(p.skip(12) =~= aes128_ctr_stream(key, iv, payload));
        },
    }
}

/// A request for a new picture is recognised whoever sends it, in a packet of
/// the protocol's least length and in longer ones, for the one stream that it
/// names.
pub proof fn picture_requests_are_recognised(sender: Seq<u8>, ssrc: u32, other: u32, more: Seq<u8>)
    requires
        sender.len() == 4,
        other != ssrc,
    ensures
        ({
            let p = seq![0x81u8, 206, 0, 2] + sender + be_bytes(ssrc as nat, 4) + more;
            asks_for_picture(p, ssrc) && !asks_for_picture(p, other)
        }),
        forall|pkt: Seq<u8>| #[trigger]
            asks_for_picture(pkt, ssrc) ==> pkt.len() >= 12 && pkt[0] & 0xe0 == 0x80 && pkt[0] & 0x1f
                == 1 && pkt[1] == 206,
{
    let p = seq![0x81u8, 206, 0, 2] + sender + be_bytes(ssrc as nat, 4) + more;
    lemma_word(ssrc);
    assert(p.subrange(8, 12) =~= be_bytes(ssrc as nat, 4));
    assert(0x81u8 & 0xe0 == 0x80 && 0x81u8 & 0x1f == 1) by (bit_vector);
}

} // verus!
