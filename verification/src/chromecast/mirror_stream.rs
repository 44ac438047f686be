//! The packets of a mirrored stream: frames cut into packets, numbered,
//! encrypted and counted.

use vstd::prelude::*;

use crate::chromecast::rtp::{
    clocks_count_to_the_tick, counts_ticks, extension_is_read_back, packet_is_taken_apart,
    abs_send_time_90khz, annexb_nal_units, audio_rtp_ts, audio_ticks, cast_iv,
    counters_are_distinct, fragment_head, header_bytes, header_is_read_back, packet_bytes,
    packet_iv, report_bytes, rtcp_sr, rtp_fua, rtp_packet, rtp_single_nal, send_ticks, system_time_ntp, units_from, video_rtp_ts, video_ticks, AUDIO_RTP_PAYLOAD_TYPE,
    ntp_fraction, ntp_seconds, MAX_RTP_PAYLOAD, NTP_UNIX_OFFSET_S, VIDEO_RTP_PAYLOAD_TYPE,
};
use crate::crypto::{aes128_ctr_stream, is_version_four, random_uuid};
use crate::octets::{be_bytes, be_value, copy_range};

verus! {

/// The bytes of a unit that one fragment carries.
pub const FRAGMENT_SIZE: usize = 1_398;

/// The number and the keys of one stream.
#[derive(Debug)]
pub struct StreamKeys {
    pub ssrc: u32,
    pub aes_key: Vec<u8>,
    pub aes_iv_mask: Vec<u8>,
}

/// The sixteen bytes of an identifier, the first one first.
pub open spec fn id_bytes(id: u128) -> Seq<u8> {
    be_bytes(id as nat / 0x1_0000_0000_0000_0000, 8) + be_bytes(
        id as nat % 0x1_0000_0000_0000_0000,
        8,
    )
}

/// Whether the bytes are those of a random identifier.
pub open spec fn is_random_key(key: Seq<u8>) -> bool {
    exists|id: u128| is_version_four(id) && key == #[trigger] id_bytes(id)
}

impl StreamKeys {
    /// Key and mask have sixteen bytes.
    pub open spec fn wf(self) -> bool {
        self.aes_key@.len() == 16 && self.aes_iv_mask@.len() == 16
    }

    /// A random number, with the bytes of random identifiers for keys.
    pub fn random() -> (keys: Self)
        ensures
            keys.wf(),
            is_random_key(keys.aes_key@),
            is_random_key(keys.aes_iv_mask@),
    {
        StreamKeys {
            ssrc: (random_uuid() % 0x1_0000_0000) as u32,
            aes_key: random_key(),
            aes_iv_mask: random_key(),
        }
    }
}

/// Sixteen random bytes: those of a random identifier, the first one first.
fn random_key() -> (key: Vec<u8>)
    ensures
        key@.len() == 16,
        is_random_key(key@),
{
    let id: u128 = random_uuid();
    let mut key: Vec<u8> = Vec::new();
    crate::octets::push_be(&mut key, (id / 0x1_0000_0000_0000_0000) as u64, 8);
    crate::octets::push_be(&mut key, (id % 0x1_0000_0000_0000_0000) as u64, 8);
    proof {
        crate::octets::lemma_be_bytes_len((id / 0x1_0000_0000_0000_0000) as u64 as nat, 8);
        crate::octets::lemma_be_bytes_len((id % 0x1_0000_0000_0000_0000) as u64 as nat, 8);
        assert(key@ =~= id_bytes(id));
    }
    key
}

/// A mirrored stream: its keys, and what was sent so far.
#[derive(Debug)]
pub struct MirrorStream {
    pub video: StreamKeys,
    pub audio: Option<StreamKeys>,
    pub video_seq: u16,
    pub video_frame_id: u32,
    pub audio_seq: u16,
    pub audio_frame_id: u32,
    pub video_pkt_count: u32,
    pub video_byte_count: u32,
    pub audio_pkt_count: u32,
    pub audio_byte_count: u32,
    pub last_video_rtp_ts: u32,
    pub last_audio_rtp_ts: u32,
}

/// What is the same in all packets of a video frame.
pub struct VideoFrame {
    pub ssrc: u32,
    pub key: Seq<u8>,
    pub mask: Seq<u8>,
    pub frame_id: u32,
    pub ts: u32,
    pub sent: u32,
}

/// How many packets a unit of `len` bytes takes.
pub open spec fn packet_count(len: int) -> int {
    if len <= MAX_RTP_PAYLOAD {
        1
    } else {
        (len - 1 + (FRAGMENT_SIZE - 1)) / FRAGMENT_SIZE as int
    }
}

/// The part of a unit that its `fi`-th fragment carries; the first byte of the
/// unit is in none.
pub open spec fn fragment_of(nal: Seq<u8>, fi: int) -> Seq<u8> {
    let from = 1 + fi * FRAGMENT_SIZE;
    let to = if from + FRAGMENT_SIZE < nal.len() {
        from + FRAGMENT_SIZE
    } else {
        nal.len() as int
    };
    nal.subrange(from, to)
}

/// What the `fi`-th packet of a unit carries: the unit itself where it fits,
/// else a fragment.
pub open spec fn packet_payload(nal: Seq<u8>, fi: int) -> Seq<u8> {
    if nal.len() <= MAX_RTP_PAYLOAD {
        nal
    } else {
        fragment_head(nal[0], fi == 0, fi == packet_count(nal.len() as int) - 1) + fragment_of(
            nal,
            fi,
        )
    }
}

/// The initial counter of the `k`-th packet of a frame.
pub open spec fn frame_iv(v: VideoFrame, k: int) -> Seq<u8> {
    packet_iv(v.mask, v.ssrc, v.frame_id, (k % 0x1_0000) as u16)
}

/// The `fi`-th packet of a unit in front of which the frame has `at` packets,
/// numbered from `seq` on. The first packet of a frame carries the time of
/// sending, the last one the marker. The place of the packet in its frame is
/// in the counter.
pub open spec fn unit_packet(
    v: VideoFrame,
    seq: int,
    at: int,
    nal: Seq<u8>,
    first: bool,
    last: bool,
    fi: int,
) -> Seq<u8> {
    packet_bytes(
        VIDEO_RTP_PAYLOAD_TYPE,
        ((seq + at + fi) % 0x1_0000) as u16,
        v.ts,
        v.ssrc,
        last && fi == packet_count(nal.len() as int) - 1,
        if first && fi == 0 {
            Some(v.sent)
        } else {
            None
        },
        v.key,
        frame_iv(v, at + fi),
        packet_payload(nal, fi),
    )
}

/// The packets of a unit in front of which the frame has `at` packets.
pub open spec fn unit_packets(
    v: VideoFrame,
    seq: int,
    at: int,
    nal: Seq<u8>,
    first: bool,
    last: bool,
) -> Seq<Seq<u8>> {
    Seq::new(
        packet_count(nal.len() as int) as nat,
        |fi: int| unit_packet(v, seq, at, nal, first, last, fi),
    )
}

/// The packets of the first `n` units of a frame, numbered from `seq` on.
pub open spec fn frame_packets(
    v: VideoFrame,
    seq: int,
    data: Seq<u8>,
    units: Seq<(int, int)>,
    n: int,
) -> Seq<Seq<u8>>
    decreases n,
{
    if n <= 0 {
        Seq::empty()
    } else {
        let before = frame_packets(v, seq, data, units, n - 1);
        before + unit_packets(
            v,
            seq,
            before.len() as int,
            data.subrange(units[n - 1].0, units[n - 1].1),
            n == 1,
            n == units.len(),
        )
    }
}

/// The bytes of the packets together.
pub open spec fn total_len(packets: Seq<Seq<u8>>) -> int
    decreases packets.len(),
{
    if packets.len() == 0 {
        0
    } else {
        total_len(packets.drop_last()) + packets.last().len()
    }
}

/// The packets as byte strings.
pub open spec fn bytes_of(packets: Seq<Vec<u8>>) -> Seq<Seq<u8>> {
    packets.map_values(|p: Vec<u8>| p@)
}

/// `n` in 32 bits.
pub open spec fn low32(n: int) -> u32 {
    (n % 0x1_0000_0000) as u32
}

fn add32(a: u32, n: usize) -> (sum: u32)
    ensures
        sum == low32(a + n),
{
    let m: u64 = (n as u64) % 0x1_0000_0000;
    proof {
        vstd::arithmetic::div_mod::lemma_add_mod_noop_right(a as int, n as int, 0x1_0000_0000);
    }
    ((a as u64 + m) % 0x1_0000_0000) as u32
}

proof fn lemma_low32(a: int, x: int, y: int)
    ensures
        low32(low32(a + x) + y) == low32(a + x + y),
{
    vstd::arithmetic::div_mod::lemma_add_mod_noop(a + x, y, 0x1_0000_0000);
    vstd::arithmetic::div_mod::lemma_add_mod_noop(
        (a + x) % 0x1_0000_0000,
        y,
        0x1_0000_0000,
    );
}

proof fn lemma_seq16(a: int, x: int)
    ensures
        ((a % 0x1_0000) + x) % 0x1_0000 == (a + x) % 0x1_0000,
{
    vstd::arithmetic::div_mod::lemma_add_mod_noop(a, x, 0x1_0000);
    vstd::arithmetic::div_mod::lemma_add_mod_noop(a % 0x1_0000, x, 0x1_0000);
}

proof fn lemma_total_push(packets: Seq<Seq<u8>>, p: Seq<u8>)
    ensures
        total_len(packets.push(p)) == total_len(packets) + p.len(),
{
    assert(packets.push(p).drop_last() =~= packets);
}

/// What was sent, as far as a frame has been cut up.
spec fn counts_match(
    before: MirrorStream,
    now: MirrorStream,
    packets: Seq<Seq<u8>>,
) -> bool {
    &&& now.video == before.video
    &&& now.audio == before.audio
    &&& now.video_seq == (before.video_seq + packets.len()) % 0x1_0000
    &&& now.video_frame_id == before.video_frame_id
    &&& now.audio_seq == before.audio_seq
    &&& now.audio_frame_id == before.audio_frame_id
    &&& now.video_pkt_count == low32(before.video_pkt_count + packets.len())
    &&& now.video_byte_count == low32(before.video_byte_count + total_len(packets))
    &&& now.audio_pkt_count == before.audio_pkt_count
    &&& now.audio_byte_count == before.audio_byte_count
    &&& now.last_video_rtp_ts == before.last_video_rtp_ts
    &&& now.last_audio_rtp_ts == before.last_audio_rtp_ts
}

/// A stream of which nothing was sent.
pub open spec fn fresh_stream(video: StreamKeys, audio: Option<StreamKeys>) -> MirrorStream {
    MirrorStream {
        video,
        audio,
        video_seq: 0,
        video_frame_id: 0,
        audio_seq: 0,
        audio_frame_id: 0,
        video_pkt_count: 0,
        video_byte_count: 0,
        audio_pkt_count: 0,
        audio_byte_count: 0,
        last_video_rtp_ts: 0,
        last_audio_rtp_ts: 0,
    }
}

/// The packets of a video frame that a stream sends next.
pub open spec fn video_packets(
    before: MirrorStream,
    data: Seq<u8>,
    timestamp_us: u64,
    now_us: u64,
) -> Seq<Seq<u8>> {
    let units = units_from(data, 0, None);
    frame_packets(
        before.next_frame(timestamp_us, now_us),
        before.video_seq as int,
        data,
        units,
        units.len() as int,
    )
}

/// A stream after the packets of a video frame: the numbers of packets and
/// bytes go on and wrap around, the next frame has the next number.
pub open spec fn after_video(
    before: MirrorStream,
    packets: Seq<Seq<u8>>,
    timestamp_us: u64,
) -> MirrorStream {
    MirrorStream {
        video_seq: ((before.video_seq + packets.len()) % 0x1_0000) as u16,
        video_frame_id: low32(before.video_frame_id + 1),
        video_pkt_count: low32(before.video_pkt_count + packets.len()),
        video_byte_count: low32(before.video_byte_count + total_len(packets)),
        last_video_rtp_ts: video_ticks(timestamp_us as int),
        ..before
    }
}

/// The packet of a sound frame that a stream sends next under the keys.
pub open spec fn audio_packet(
    before: MirrorStream,
    keys: StreamKeys,
    data: Seq<u8>,
    timestamp_us: u64,
    now_us: u64,
) -> Seq<u8> {
    packet_bytes(
        AUDIO_RTP_PAYLOAD_TYPE,
        before.audio_seq,
        audio_ticks(timestamp_us as int),
        keys.ssrc,
        true,
        Some(send_ticks(now_us as int)),
        keys.aes_key@,
        packet_iv(keys.aes_iv_mask@, keys.ssrc, before.audio_frame_id, 0),
        data,
    )
}

/// A stream after a sound packet.
pub open spec fn after_audio(
    before: MirrorStream,
    packet: Seq<u8>,
    timestamp_us: u64,
) -> MirrorStream {
    MirrorStream {
        audio_seq: ((before.audio_seq + 1) % 0x1_0000) as u16,
        audio_frame_id: low32(before.audio_frame_id + 1),
        audio_pkt_count: low32(before.audio_pkt_count + 1),
        audio_byte_count: low32(before.audio_byte_count + packet.len()),
        last_audio_rtp_ts: audio_ticks(timestamp_us as int),
        ..before
    }
}

/// The sender reports that are due: none before a second has passed since the
/// last ones, else one for the video and one for the sound, if any.
pub open spec fn due_reports(
    stream: MirrorStream,
    elapsed_us: u64,
    secs: u64,
    subsec_nanos: u32,
) -> Seq<Seq<u8>> {
    let sec = ntp_seconds(secs as int);
    let frac = ntp_fraction(subsec_nanos as int);
    let video = report_bytes(
        stream.video.ssrc,
        sec,
        frac,
        stream.last_video_rtp_ts,
        stream.video_pkt_count,
        stream.video_byte_count,
    );
    if elapsed_us < 1_000_000 {
        Seq::empty()
    } else {
        match stream.audio {
            None => seq![video],
            Some(a) => seq![
                video,
                report_bytes(
                    a.ssrc,
                    sec,
                    frac,
                    stream.last_audio_rtp_ts,
                    stream.audio_pkt_count,
                    stream.audio_byte_count,
                ),
            ],
        }
    }
}

impl MirrorStream {
    /// The keys have their lengths.
    pub open spec fn wf(self) -> bool {
        self.video.wf() && (self.audio matches Some(a) ==> a.wf())
    }

    /// A stream of which nothing was sent.
    pub fn new(video: StreamKeys, audio: Option<StreamKeys>) -> (stream: Self)
        requires
            video.wf(),
            audio matches Some(a) ==> a.wf(),
        ensures
            stream.wf(),
            stream == fresh_stream(video, audio),
    {
        MirrorStream {
            video,
            audio,
            video_seq: 0,
            video_frame_id: 0,
            audio_seq: 0,
            audio_frame_id: 0,
            video_pkt_count: 0,
            video_byte_count: 0,
            audio_pkt_count: 0,
            audio_byte_count: 0,
            last_video_rtp_ts: 0,
            last_audio_rtp_ts: 0,
        }
    }

    /// What the packets of the next frame have in common.
    pub open spec fn next_frame(self, timestamp_us: u64, now_us: u64) -> VideoFrame {
        VideoFrame {
            ssrc: self.video.ssrc,
            key: self.video.aes_key@,
            mask: self.video.aes_iv_mask@,
            frame_id: self.video_frame_id,
            ts: video_ticks(timestamp_us as int),
            sent: send_ticks(now_us as int),
        }
    }

    fn count_video(&mut self, len: usize)
        ensures
            *final(self) == (MirrorStream {
                video_seq: ((old(self).video_seq + 1) % 0x1_0000) as u16,
                video_pkt_count: low32(old(self).video_pkt_count + 1),
                video_byte_count: low32(old(self).video_byte_count + len),
                ..*old(self)
            }),
    {
        self.video_seq = ((self.video_seq as u32 + 1) % 0x1_0000) as u16;
        self.video_pkt_count = add32(self.video_pkt_count, 1);
        self.video_byte_count = add32(self.video_byte_count, len);
    }

    /// The packets of a video frame in order, and the stream after them: the
    /// numbers of packets and bytes go on and wrap around, the next frame has
    /// the next number.
    pub fn send_frame(&mut self, data: &[u8], timestamp_us: u64, now_us: u64) -> (packets: Vec<
        Vec<u8>,
    >)
        requires
            old(self).wf(),
            timestamp_us * 9 <= u64::MAX,
            now_us * 9 <= u64::MAX,
        ensures
            final(self).wf(),
            bytes_of(packets@) == video_packets(*old(self), data@, timestamp_us, now_us),
            *final(self) == after_video(*old(self), bytes_of(packets@), timestamp_us),
    {
        let ghost before = *self;
        let ts: u32 = video_rtp_ts(timestamp_us);
        let sent: u32 = abs_send_time_90khz(now_us);
        let units: Vec<(usize, usize)> = annexb_nal_units(data);
        let ghost view = |u: (usize, usize)| (u.0 as int, u.1 as int);
        let ghost all = units_from(data@, 0, None);
        let ghost v = before.next_frame(timestamp_us, now_us);
        let ghost seq0 = before.video_seq as int;
        proof {
            assert(all.len() == units@.len());
            assert forall|k: int| 0 <= k < units@.len() implies all[k] == (
                (#[trigger] units@[k]).0 as int,
                units@[k].1 as int,
            ) by {
                assert(units@.map_values(view)[k] == view(units@[k]));
            }
        }
        let mut packets: Vec<Vec<u8>> = Vec::new();
        assert(bytes_of(packets@) =~= Seq::<Seq<u8>>::empty());
        let mut n: usize = 0;
        while n < units.len()
            invariant
                before.wf(),
                v == before.next_frame(timestamp_us, now_us),
                ts == v.ts,
                sent == v.sent,
                seq0 == before.video_seq,
                all.len() == units@.len(),
                forall|k: int|
                    0 <= k < units@.len() ==> all[k] == (
                        (#[trigger] units@[k]).0 as int,
                        units@[k].1 as int,
                    ),
                forall|k: int|
                    0 <= k < units@.len() ==> (#[trigger] units@[k]).0 < units@[k].1
                        <= data@.len(),
                n <= units@.len(),
                counts_match(before, *self, bytes_of(packets@)),
                bytes_of(packets@) == frame_packets(v, seq0, data@, all, n as int),
            decreases units@.len() - n,
        {
            let (from, to) = units[n];
            let nal: Vec<u8> = copy_range(data, from, to);
            let last: bool = n + 1 == units.len();
            let first: bool = n == 0;
            assert(all[n as int] == (units@[n as int].0 as int, units@[n as int].1 as int));
            let ghost so_far = bytes_of(packets@);
            self.send_unit(&mut packets, nal.as_slice(), ts, sent, first, last, Ghost(before));
            assert(bytes_of(packets@) == so_far + unit_packets(
                v,
                seq0,
                so_far.len() as int,
                nal@,
                first,
                last,
            ));
            n = n + 1;
        }
        self.last_video_rtp_ts = ts;
        self.video_frame_id = add32(self.video_frame_id, 1);
        assert(bytes_of(packets@).len() == packets@.len());
        packets
    }

    /// Appends the packets of one unit.
    fn send_unit(
        &mut self,
        packets: &mut Vec<Vec<u8>>,
        nal: &[u8],
        ts: u32,
        sent: u32,
        first: bool,
        last: bool,
        Ghost(before): Ghost<MirrorStream>,
    )
        requires
            before.wf(),
            nal@.len() > 0,
            counts_match(before, *old(self), bytes_of(old(packets)@)),
        ensures
            counts_match(before, *final(self), bytes_of(final(packets)@)),
            bytes_of(final(packets)@) == bytes_of(old(packets)@) + unit_packets(
                (VideoFrame {
                    ssrc: before.video.ssrc,
                    key: before.video.aes_key@,
                    mask: before.video.aes_iv_mask@,
                    frame_id: before.video_frame_id,
                    ts,
                    sent,
                }),
                before.video_seq as int,
                bytes_of(old(packets)@).len() as int,
                nal@,
                first,
                last,
            ),
    {
        let ghost v = VideoFrame {
            ssrc: before.video.ssrc,
            key: before.video.aes_key@,
            mask: before.video.aes_iv_mask@,
            frame_id: before.video_frame_id,
            ts,
            sent,
        };
        let ghost old_packets = bytes_of(packets@);
        let ghost seq = before.video_seq as int;
        let ghost at = old_packets.len() as int;
        let ghost wanted = unit_packets(v, seq, at, nal@, first, last);
        assert(old_packets.len() == packets@.len());
        let len: usize = nal.len();
        if len <= MAX_RTP_PAYLOAD {
            let iv: Vec<u8> = cast_iv(
                self.video.aes_iv_mask.as_slice(),
                self.video.ssrc,
                self.video_frame_id,
                (packets.len() % 0x1_0000) as u16,
            );
            let ext: Option<u32> = if first {
                Some(sent)
            } else {
                None
            };
            let pkt: Vec<u8> = rtp_single_nal(
                self.video_seq,
                ts,
                self.video.ssrc,
                last,
                nal,
                self.video.aes_key.as_slice(),
                iv.as_slice(),
                ext,
            );
            proof {
                lemma_seq16(before.video_seq + old_packets.len(), 0);
                assert(pkt@ == unit_packet(v, seq, at, nal@, first, last, 0));
            }
            self.push_packet(packets, pkt, Ghost(before));
            assert(bytes_of(packets@) =~= old_packets + wanted);
            return;
        }
        let count: usize = (len - 2) / FRAGMENT_SIZE + 1;
        assert(count == packet_count(len as int));
        let mut fi: usize = 0;
        while fi < count
            invariant
                before.wf(),
                len == nal@.len(),
                len > MAX_RTP_PAYLOAD,
                count == packet_count(len as int),
                fi <= count,
                seq == before.video_seq,
                at == old_packets.len(),
                v == (VideoFrame {
                    ssrc: before.video.ssrc,
                    key: before.video.aes_key@,
                    mask: before.video.aes_iv_mask@,
                    frame_id: before.video_frame_id,
                    ts,
                    sent,
                }),
                wanted == unit_packets(v, seq, at, nal@, first, last),
                counts_match(before, *self, bytes_of(packets@)),
                bytes_of(packets@) == old_packets + wanted.take(fi as int),
            decreases count - fi,
        {
            assert(fi * FRAGMENT_SIZE < len - 1) by (nonlinear_arith)
                requires
                    fi < count,
                    count == (len - 1 + (FRAGMENT_SIZE - 1)) / FRAGMENT_SIZE as int,
                    FRAGMENT_SIZE == 1398,
            ;
            let from: usize = 1 + fi * FRAGMENT_SIZE;
            let to: usize = if FRAGMENT_SIZE < len - from {
                from + FRAGMENT_SIZE
            } else {
                len
            };
            let fragment: Vec<u8> = copy_range(nal, from, to);
            assert(fragment@ == fragment_of(nal@, fi as int));
            let end: bool = fi + 1 == count;
            let packet_id: u16 = (packets.len() % 0x1_0000) as u16;
            let iv: Vec<u8> = cast_iv(
                self.video.aes_iv_mask.as_slice(),
                self.video.ssrc,
                self.video_frame_id,
                packet_id,
            );
            let ext: Option<u32> = if first && fi == 0 {
                Some(sent)
            } else {
                None
            };
            let pkt: Vec<u8> = rtp_fua(
                self.video_seq,
                ts,
                self.video.ssrc,
                end && last,
                nal[0],
                fragment.as_slice(),
                fi == 0,
                end,
                self.video.aes_key.as_slice(),
                iv.as_slice(),
                ext,
            );
            proof {
                assert(bytes_of(packets@).len() == old_packets.len() + fi);
                assert(pkt@ == unit_packet(v, seq, at, nal@, first, last, fi as int));
            }
            let ghost so_far = bytes_of(packets@);
            self.push_packet(packets, pkt, Ghost(before));
            assert(bytes_of(packets@) =~= old_packets + wanted.take(fi + 1));
            fi = fi + 1;
        }
        assert(wanted.take(count as int) =~= wanted);
    }

    /// Appends and counts one packet.
    fn push_packet(
        &mut self,
        packets: &mut Vec<Vec<u8>>,
        pkt: Vec<u8>,
        Ghost(before): Ghost<MirrorStream>,
    )
        requires
            counts_match(before, *old(self), bytes_of(old(packets)@)),
        ensures
            counts_match(before, *final(self), bytes_of(final(packets)@)),
            bytes_of(final(packets)@) == bytes_of(old(packets)@).push(pkt@),
    {
        let ghost so_far = bytes_of(packets@);
        let ghost bytes = pkt@;
        self.count_video(pkt.len());
        packets.push(pkt);
        proof {
            assert(bytes_of(packets@) =~= so_far.push(bytes));
            lemma_total_push(so_far, bytes);
            lemma_seq16(before.video_seq + so_far.len(), 1);
            lemma_low32(before.video_pkt_count as int, so_far.len() as int, 1);
            lemma_low32(before.video_byte_count as int, total_len(so_far), bytes.len() as int);
        }
    }

    /// The packet of a sound frame and the stream after it; a stream without
    /// sound sends none. Every packet carries the marker and the time of
    /// sending.
    pub fn send_audio(&mut self, data: &[u8], timestamp_us: u64, now_us: u64) -> (packet: Option<
        Vec<u8>,
    >)
        requires
            old(self).wf(),
            old(self).audio is Some ==> timestamp_us * 48 <= u64::MAX && now_us * 9 <= u64::MAX,
        ensures
            final(self).wf(),
            match old(self).audio {
                None => packet is None && *final(self) == *old(self),
                Some(keys) => {
                    &&& packet matches Some(p)
                    &&& p@ == audio_packet(*old(self), keys, data@, timestamp_us, now_us)
                    &&& *final(self) == after_audio(*old(self), p@, timestamp_us)
                },
            },
    {
        let (ts, pkt): (u32, Vec<u8>) = match &self.audio {
            None => {
                return None;
            },
            Some(keys) => {
                let ts: u32 = audio_rtp_ts(timestamp_us);
                let iv: Vec<u8> = cast_iv(
                    keys.aes_iv_mask.as_slice(),
                    keys.ssrc,
                    self.audio_frame_id,
                    0,
                );
                let pkt: Vec<u8> = rtp_packet(
                    AUDIO_RTP_PAYLOAD_TYPE,
                    self.audio_seq,
                    ts,
                    keys.ssrc,
                    true,
                    Some(abs_send_time_90khz(now_us)),
                    keys.aes_key.as_slice(),
                    iv.as_slice(),
                    data,
                );
                (ts, pkt)
            },
        };
        self.audio_pkt_count = add32(self.audio_pkt_count, 1);
        self.audio_byte_count = add32(self.audio_byte_count, pkt.len());
        self.last_audio_rtp_ts = ts;
        self.audio_seq = ((self.audio_seq as u32 + 1) % 0x1_0000) as u16;
        self.audio_frame_id = add32(self.audio_frame_id, 1);
        Some(pkt)
    }

    /// The sender reports that are due: none before a second has passed since
    /// the last ones, else one for the video and one for the sound, if any.
    /// The time since the Unix epoch goes into them.
    pub fn maybe_send_rtcp_sr(&self, elapsed_us: u64, secs: u64, subsec_nanos: u32) -> (reports:
        Vec<Vec<u8>>)
        requires
            secs + NTP_UNIX_OFFSET_S <= u64::MAX,
            subsec_nanos < 1_000_000_000,
        ensures
            bytes_of(reports@) == due_reports(*self, elapsed_us, secs, subsec_nanos),
    {
        let mut reports: Vec<Vec<u8>> = Vec::new();
        if elapsed_us < 1_000_000 {
            assert(bytes_of(reports@) =~= Seq::<Seq<u8>>::empty());
            return reports;
        }
        let (sec, frac) = system_time_ntp(secs, subsec_nanos);
        reports.push(
            rtcp_sr(
                self.video.ssrc,
                sec,
                frac,
                self.last_video_rtp_ts,
                self.video_pkt_count,
                self.video_byte_count,
            ),
        );
        let ghost video = reports@[0]@;
        assert(bytes_of(reports@) =~= seq![video]);
        match &self.audio {
            Some(a) => {
                reports.push(
                    rtcp_sr(
                        a.ssrc,
                        sec,
                        frac,
                        self.last_audio_rtp_ts,
                        self.audio_pkt_count,
                        self.audio_byte_count,
                    ),
                );
                assert(bytes_of(reports@) =~= seq![video, reports@[1]@]);
            },
            None => {},
        }
        reports
    }
}

/// The first `n` fragments of a unit, joined.
pub open spec fn joined_fragments(nal: Seq<u8>, n: int) -> Seq<u8>
    decreases n,
{
    if n <= 0 {
        Seq::empty()
    } else {
        joined_fragments(nal, n - 1) + fragment_of(nal, n - 1)
    }
}

proof fn lemma_joined(nal: Seq<u8>, n: int)
    requires
        0 <= n,
        n * FRAGMENT_SIZE <= nal.len() - 1,
    ensures
        joined_fragments(nal, n) == nal.subrange(1, 1 + n * FRAGMENT_SIZE),
    decreases n,
{
    if n > 0 {
        assert((n - 1) * FRAGMENT_SIZE + FRAGMENT_SIZE == n * FRAGMENT_SIZE) by (nonlinear_arith);
        lemma_joined(nal, n - 1);
        assert(joined_fragments(nal, n) =~= nal.subrange(1, 1 + n * FRAGMENT_SIZE));
    } else {
        assert(joined_fragments(nal, n) =~= nal.subrange(1, 1 + n * FRAGMENT_SIZE));
    }
}

/// A receiver that joins the fragments of a unit gets all of the unit but its
/// first byte, which every fragment carries in its head.
pub proof fn fragments_make_the_unit(nal: Seq<u8>)
    requires
        nal.len() > MAX_RTP_PAYLOAD,
    ensures
        joined_fragments(nal, packet_count(nal.len() as int)) == nal.skip(1),
{
    let n = packet_count(nal.len() as int);
    let body = nal.len() - 1;
    assert((n - 1) * FRAGMENT_SIZE < body && body <= n * FRAGMENT_SIZE && n >= 1)
        by (nonlinear_arith)
        requires
            n == (body + (FRAGMENT_SIZE - 1)) / FRAGMENT_SIZE as int,
            FRAGMENT_SIZE == 1398,
            body >= 1,
    ;
    lemma_joined(nal, n - 1);
    assert((n - 1) * FRAGMENT_SIZE + FRAGMENT_SIZE == n * FRAGMENT_SIZE) by (nonlinear_arith);
    assert(joined_fragments(nal, n) =~= nal.skip(1));
}

/// No packet carries more than the largest payload.
pub proof fn payloads_fit(nal: Seq<u8>, fi: int)
    requires
        nal.len() > 0,
        0 <= fi < packet_count(nal.len() as int),
    ensures
        packet_payload(nal, fi).len() <= MAX_RTP_PAYLOAD,
{
    if nal.len() > MAX_RTP_PAYLOAD {
        let body = nal.len() - 1;
        assert(fi * FRAGMENT_SIZE < body) by (nonlinear_arith)
            requires
                fi < (body + (FRAGMENT_SIZE - 1)) / FRAGMENT_SIZE as int,
                FRAGMENT_SIZE == 1398,
        ;
        assert(0 <= fi * FRAGMENT_SIZE) by (nonlinear_arith)
            requires
                0 <= fi,
        ;
    }
}

/// Whether a packet is the `k`-th one of a frame whose packets are numbered
/// from `seq` on, with the payload encrypted, the marker and the time of
/// sending or not.
pub open spec fn is_packet(
    p: Seq<u8>,
    v: VideoFrame,
    seq: int,
    k: int,
    marker: bool,
    timed: bool,
    payload: Seq<u8>,
) -> bool {
    p == packet_bytes(
        VIDEO_RTP_PAYLOAD_TYPE,
        ((seq + k) % 0x1_0000) as u16,
        v.ts,
        v.ssrc,
        marker,
        if timed {
            Some(v.sent)
        } else {
            None
        },
        v.key,
        frame_iv(v, k),
        payload,
    )
}

/// Whether a packet is the `k`-th one of a frame, whatever it carries.
pub open spec fn has_place(
    p: Seq<u8>,
    v: VideoFrame,
    seq: int,
    k: int,
    marker: bool,
    timed: bool,
) -> bool {
    exists|payload: Seq<u8>| #[trigger] is_packet(p, v, seq, k, marker, timed, payload)
}

proof fn lemma_packet_count(len: int)
    requires
        len >= 0,
    ensures
        packet_count(len) >= 1,
{
    if len > MAX_RTP_PAYLOAD {
        assert((len - 1 + (FRAGMENT_SIZE - 1)) / FRAGMENT_SIZE as int >= 1) by (nonlinear_arith)
            requires
                len - 1 >= 1,
                FRAGMENT_SIZE == 1398,
        ;
    }
}

proof fn lemma_packet_at(
    v: VideoFrame,
    seq: int,
    data: Seq<u8>,
    units: Seq<(int, int)>,
    n: int,
    k: int,
)
    requires
        0 <= n <= units.len(),
        0 <= k < frame_packets(v, seq, data, units, n).len(),
        forall|i: int|
            0 <= i < units.len() ==> 0 <= (#[trigger] units[i]).0 <= units[i].1 <= data.len(),
    ensures
        ({
            let all = frame_packets(v, seq, data, units, n);
            has_place(all[k], v, seq, k, n == units.len() && k == all.len() - 1, k == 0)
        }),
    decreases n,
{
    let all = frame_packets(v, seq, data, units, n);
    let before = frame_packets(v, seq, data, units, n - 1);
    let unit = units[n - 1];
    let nal = data.subrange(unit.0, unit.1);
    assert(0 <= unit.0 <= unit.1 <= data.len());
    let count = packet_count(nal.len() as int);
    lemma_packet_count(nal.len() as int);
    let packets = unit_packets(v, seq, before.len() as int, nal, n == 1, n == units.len());
    assert(all == before + packets);
    if k < before.len() {
        lemma_packet_at(v, seq, data, units, n - 1, k);
        assert(all[k] == before[k]);
    } else {
        let fi = k - before.len();
        assert(all[k] == packets[fi]);
        if n > 1 {
            lemma_packets_grow(v, seq, data, units, n - 1);
        }
        assert(is_packet(
            all[k],
            v,
            seq,
            k,
            n == units.len() && k == all.len() - 1,
            k == 0,
            packet_payload(nal, fi),
        ));
    }
}

proof fn lemma_packets_grow(
    v: VideoFrame,
    seq: int,
    data: Seq<u8>,
    units: Seq<(int, int)>,
    n: int,
)
    requires
        0 < n <= units.len(),
        forall|i: int|
            0 <= i < units.len() ==> 0 <= (#[trigger] units[i]).0 <= units[i].1 <= data.len(),
    ensures
        frame_packets(v, seq, data, units, n).len() >= 1,
{
    let unit = units[n - 1];
    assert(0 <= unit.0 <= unit.1 <= data.len());
    lemma_packet_count((unit.1 - unit.0) as int);
}

/// What a receiver reads off the packets of a frame: they are numbered one
/// after another, all carry the time and the number of the stream, only the
/// last one is marked, and only the first one carries the time of sending.
pub proof fn packets_are_in_order(
    v: VideoFrame,
    seq: int,
    data: Seq<u8>,
    units: Seq<(int, int)>,
    k: int,
)
    requires
        0 <= k < frame_packets(v, seq, data, units, units.len() as int).len(),
        forall|i: int|
            0 <= i < units.len() ==> 0 <= (#[trigger] units[i]).0 <= units[i].1 <= data.len(),
    ensures
        ({
            let all = frame_packets(v, seq, data, units, units.len() as int);
            let p = all[k];
            &&& p.len() >= 12
            &&& be_value(p.subrange(2, 4)) == (seq + k) % 0x1_0000
            &&& be_value(p.subrange(4, 8)) == v.ts
            &&& be_value(p.subrange(8, 12)) == v.ssrc
            &&& (p[1] & 0x80 != 0) == (k == all.len() - 1)
            &&& (p[0] & 0x10 != 0) == (k == 0)
        }),
{
    let n = units.len() as int;
    let all = frame_packets(v, seq, data, units, n);
    lemma_packet_at(v, seq, data, units, n, k);
    let last = k == all.len() - 1;
    let first = k == 0;
    let p = all[k];
    assert(has_place(p, v, seq, k, last, first));
    let payload = choose|payload: Seq<u8>| #[trigger]
        is_packet(p, v, seq, k, last, first, payload);
    let number = ((seq + k) % 0x1_0000) as u16;
    let h = header_bytes(VIDEO_RTP_PAYLOAD_TYPE, number, v.ts, v.ssrc, last, first);
    header_is_read_back(VIDEO_RTP_PAYLOAD_TYPE, number, v.ts, v.ssrc, last, first);
    assert(p.subrange(2, 4) =~= h.subrange(2, 4));
    assert(p.subrange(4, 8) =~= h.subrange(4, 8));
    assert(p.subrange(8, 12) =~= h.subrange(8, 12));
    assert(p[0] == h[0]);
    assert(p[1] == h[1]);
}

/// No two packets of a frame are encrypted under one initial counter, unless
/// their places in the frame are a multiple of 65,536 apart: the counter holds
/// 16 bits of the place.
pub proof fn packets_have_their_own_counters(
    v: VideoFrame,
    seq: int,
    data: Seq<u8>,
    units: Seq<(int, int)>,
    j: int,
    k: int,
)
    requires
        v.mask.len() == 16,
        0 <= j < k < frame_packets(v, seq, data, units, units.len() as int).len(),
        (k - j) % 0x1_0000 != 0,
        forall|i: int|
            0 <= i < units.len() ==> 0 <= (#[trigger] units[i]).0 <= units[i].1 <= data.len(),
    ensures
        ({
            let all = frame_packets(v, seq, data, units, units.len() as int);
            &&& has_place(all[j], v, seq, j, false, j == 0)
            &&& has_place(all[k], v, seq, k, k == all.len() - 1, false)
            &&& frame_iv(v, j) != frame_iv(v, k)
        }),
{
    let n = units.len() as int;
    lemma_packet_at(v, seq, data, units, n, j);
    lemma_packet_at(v, seq, data, units, n, k);
    let a = (j % 0x1_0000) as u16;
    let b = (k % 0x1_0000) as u16;
    if frame_iv(v, j) == frame_iv(v, k) {
        counters_are_distinct(v.mask, v.ssrc, v.frame_id, a, v.ssrc, v.frame_id, b);
        vstd::arithmetic::div_mod::lemma_mod_equivalence(k, j, 0x1_0000);
    }
}

/// A unit that fits a packet is sent whole. Any other takes as few fragments
/// as can be: all are full but the last, which is not empty.
pub proof fn units_take_as_few_packets_as_can_be(nal: Seq<u8>, fi: int)
    requires
        nal.len() > 0,
        0 <= fi < packet_count(nal.len() as int),
    ensures
        nal.len() <= 1_400 ==> packet_count(nal.len() as int) == 1 && packet_payload(nal, fi)
            == nal,
        nal.len() > 1_400 ==> {
            let last = fi == packet_count(nal.len() as int) - 1;
            &&& packet_count(nal.len() as int) >= 2
            &&& packet_payload(nal, fi).len() == 2 + fragment_of(nal, fi).len()
            &&& !last ==> packet_payload(nal, fi).len() == 1_400
            &&& last ==> 2 < packet_payload(nal, fi).len() <= 1_400
            &&& packet_payload(nal, fi)[0] & 0x1f == 28
            &&& (packet_payload(nal, fi)[1] & 0x80 != 0) == (fi == 0)
            &&& (packet_payload(nal, fi)[1] & 0x40 != 0) == last
            &&& packet_payload(nal, fi).skip(2) == fragment_of(nal, fi)
        },
{
    if nal.len() > 1_400 {
        let n = packet_count(nal.len() as int);
        let body = nal.len() - 1;
        assert((n - 1) * FRAGMENT_SIZE < body && body <= n * FRAGMENT_SIZE && n >= 2)
            by (nonlinear_arith)
            requires
                n == (body + (FRAGMENT_SIZE - 1)) / FRAGMENT_SIZE as int,
                FRAGMENT_SIZE == 1398,
                body >= 1400,
        ;
        assert(fi * FRAGMENT_SIZE <= (n - 1) * FRAGMENT_SIZE && 0 <= fi * FRAGMENT_SIZE)
            by (nonlinear_arith)
            requires
                0 <= fi <= n - 1,
                FRAGMENT_SIZE == 1398,
        ;
        assert(fi < n - 1 ==> (fi + 1) * FRAGMENT_SIZE <= (n - 1) * FRAGMENT_SIZE)
            by (nonlinear_arith)
            requires
                FRAGMENT_SIZE == 1398,
        ;
        assert((fi + 1) * FRAGMENT_SIZE == fi * FRAGMENT_SIZE + FRAGMENT_SIZE) by (nonlinear_arith);
        let head = fragment_head(nal[0], fi == 0, fi == n - 1);
        crate::chromecast::rtp::fragment_head_is_read_back(nal[0], fi == 0, fi == n - 1);
        assert(packet_payload(nal, fi).skip(2) =~= fragment_of(nal, fi));
    }
}

/// The units of a frame are sent in their order: behind the packets of the
/// units in front of it stand those of each unit, one for each of its
/// fragments, with the marker on the last packet of the frame alone.
pub proof fn units_are_sent_in_order(
    v: VideoFrame,
    seq: int,
    data: Seq<u8>,
    units: Seq<(int, int)>,
    u: int,
    fi: int,
)
    requires
        0 <= u < units.len(),
        forall|i: int|
            0 <= i < units.len() ==> 0 <= (#[trigger] units[i]).0 < units[i].1 <= data.len(),
        0 <= fi < packet_count(units[u].1 - units[u].0),
    ensures
        ({
            let nal = data.subrange(units[u].0, units[u].1);
            let all = frame_packets(v, seq, data, units, units.len() as int);
            let before = frame_packets(v, seq, data, units, u).len() as int;
            let k = before + fi;
            &&& 0 <= k < all.len()
            &&& is_packet(
                all[k],
                v,
                seq,
                k,
                k == all.len() - 1,
                k == 0,
                packet_payload(nal, fi),
            )
            &&& frame_packets(v, seq, data, units, u + 1).len() == before + packet_count(
                units[u].1 - units[u].0,
            )
        }),
{
    lemma_unit_packet_at(v, seq, data, units, units.len() as int, u, fi);
}

proof fn lemma_unit_packet_at(
    v: VideoFrame,
    seq: int,
    data: Seq<u8>,
    units: Seq<(int, int)>,
    n: int,
    u: int,
    fi: int,
)
    requires
        0 <= u < n <= units.len(),
        forall|i: int|
            0 <= i < units.len() ==> 0 <= (#[trigger] units[i]).0 < units[i].1 <= data.len(),
        0 <= fi < packet_count(units[u].1 - units[u].0),
    ensures
        ({
            let nal = data.subrange(units[u].0, units[u].1);
            let all = frame_packets(v, seq, data, units, n);
            let before = frame_packets(v, seq, data, units, u).len() as int;
            let k = before + fi;
            &&& 0 <= k < all.len()
            &&& is_packet(
                all[k],
                v,
                seq,
                k,
                n == units.len() && k == all.len() - 1,
                k == 0,
                packet_payload(nal, fi),
            )
            &&& frame_packets(v, seq, data, units, u + 1).len() == before + packet_count(
                units[u].1 - units[u].0,
            )
        }),
    decreases n,
{
    let all = frame_packets(v, seq, data, units, n);
    let most = frame_packets(v, seq, data, units, n - 1);
    let unit = units[n - 1];
    assert(0 <= unit.0 < unit.1 <= data.len());
    lemma_packet_count(unit.1 - unit.0);
    assert(0 <= units[u].0 < units[u].1 <= data.len());
    lemma_packet_count(units[u].1 - units[u].0);
    if u < n - 1 {
        lemma_unit_packet_at(v, seq, data, units, n - 1, u, fi);
    } else {
        if u > 0 {
            lemma_packets_grow(v, seq, data, units, u);
        }
        let packets = unit_packets(
            v,
            seq,
            most.len() as int,
            data.subrange(unit.0, unit.1),
            n == 1,
            n == units.len(),
        );
        assert(all == most + packets);
        assert(all[most.len() + fi] == packets[fi]);
    }
}

/// What a receiver reads off the packets of a frame that a stream sends: the
/// type of video, numbers that go on from the last packet, the frame's time on
/// the video clock, the number of the stream, and a payload under the stream's
/// key and a counter of the stream, the frame and the packet's place. The first
/// packet, and no other, says when it was sent.
pub proof fn video_packets_are_read_back(
    stream: MirrorStream,
    data: Seq<u8>,
    timestamp_us: u64,
    now_us: u64,
    k: int,
)
    requires
        stream.wf(),
        0 <= k < video_packets(stream, data, timestamp_us, now_us).len(),
    ensures
        ({
            let all = video_packets(stream, data, timestamp_us, now_us);
            let p = all[k];
            let head: int = if k == 0 {
                20
            } else {
                12
            };
            let iv = packet_iv(
                stream.video.aes_iv_mask@,
                stream.video.ssrc,
                stream.video_frame_id,
                (k % 0x1_0000) as u16,
            );
            &&& p[0] & 0xc0 == 0x80
            &&& (p[0] & 0x10 != 0) == (k == 0)
            &&& (p[1] & 0x80 != 0) == (k == all.len() - 1)
            &&& p[1] & 0x7f == 96
            &&& be_value(p.subrange(2, 4)) == (stream.video_seq + k) % 0x1_0000
            &&& be_value(p.subrange(4, 8)) == video_ticks(timestamp_us as int)
            &&& be_value(p.subrange(8, 12)) == stream.video.ssrc
            &&& k == 0 ==> be_value(p.subrange(17, 20)) == send_ticks(now_us as int)
            &&& exists|payload: Seq<u8>|
                p.skip(head) == #[trigger] aes128_ctr_stream(stream.video.aes_key@, iv, payload)
        }),
{
    let units = units_from(data, 0, None);
    let v = stream.next_frame(timestamp_us, now_us);
    let seq = stream.video_seq as int;
    let n = units.len() as int;
    let all = frame_packets(v, seq, data, units, n);
    assert forall|i: int| 0 <= i < units.len() implies 0 <= (#[trigger] units[i]).0 <= units[i].1
        <= data.len() by {
        crate::chromecast::rtp::units_are_clean(data, i);
    }
    lemma_packet_at(v, seq, data, units, n, k);
    let last = k == all.len() - 1;
    let p = all[k];
    let first = k == 0;
    assert(has_place(p, v, seq, k, last, first));
    let payload = choose|payload: Seq<u8>| #[trigger]
        is_packet(p, v, seq, k, last, first, payload);
    let ext = if k == 0 {
        Some(v.sent)
    } else {
        None
    };
    packet_is_taken_apart(
        96,
        ((seq + k) % 0x1_0000) as u16,
        v.ts,
        v.ssrc,
        last,
        ext,
        v.key,
        frame_iv(v, k),
        payload,
    );
    lemma_send_ticks(now_us as int);
    if k == 0 {
        extension_is_read_back(v.sent);
        assert(p.subrange(17, 20) =~= p.subrange(12, 20).subrange(5, 8));
    }
}

proof fn lemma_send_ticks(us: int)
    ensures
        send_ticks(us) < 0x100_0000,
{
}

/// What a receiver reads off a packet of sound: the type of sound, the next
/// number, the frame's time on the sound clock, the number of the sound stream,
/// when it was sent, and the whole frame under the sound's key and a counter of
/// its own.
pub proof fn sound_packet_is_read_back(
    stream: MirrorStream,
    keys: StreamKeys,
    data: Seq<u8>,
    timestamp_us: u64,
    now_us: u64,
)
    ensures
        ({
            let p = audio_packet(stream, keys, data, timestamp_us, now_us);
            &&& p[0] & 0xd0 == 0x90
            &&& p[1] == 97 + 128
            &&& be_value(p.subrange(2, 4)) == stream.audio_seq
            &&& be_value(p.subrange(4, 8)) == audio_ticks(timestamp_us as int)
            &&& be_value(p.subrange(8, 12)) == keys.ssrc
            &&& be_value(p.subrange(17, 20)) == send_ticks(now_us as int)
            &&& p.skip(20) == aes128_ctr_stream(
                keys.aes_key@,
                packet_iv(keys.aes_iv_mask@, keys.ssrc, stream.audio_frame_id, 0),
                data,
            )
        }),
{
    let p = audio_packet(stream, keys, data, timestamp_us, now_us);
    let iv = packet_iv(keys.aes_iv_mask@, keys.ssrc, stream.audio_frame_id, 0);
    let sent = send_ticks(now_us as int);
    packet_is_taken_apart(
        97,
        stream.audio_seq,
        audio_ticks(timestamp_us as int),
        keys.ssrc,
        true,
        Some(sent),
        keys.aes_key@,
        iv,
        data,
    );
    lemma_send_ticks(now_us as int);
    extension_is_read_back(sent);
    assert(p.subrange(17, 20) =~= p.subrange(12, 20).subrange(5, 8));
    let a = p[0];
    let b = p[1];
    assert(a & 0xc0 == 0x80 && a & 0x10 != 0 ==> a & 0xd0 == 0x90) by (bit_vector);
    assert(b & 0x80 != 0 && b & 0x7f == 97 ==> b == 225) by (bit_vector);
}

/// A stream counts every packet and every byte of it, and every frame, apart
/// from the wraps; sending video leaves the numbers of the sound alone, and the
/// other way round.
pub proof fn everything_sent_is_counted(
    stream: MirrorStream,
    packets: Seq<Seq<u8>>,
    packet: Seq<u8>,
    timestamp_us: u64,
)
    ensures
        ({
            let v = after_video(stream, packets, timestamp_us);
            let more = after_video(stream, packets.push(packet), timestamp_us);
            let a = after_audio(stream, packet, timestamp_us);
            &&& more.video_seq == (v.video_seq + 1) % 0x1_0000
            &&& more.video_pkt_count == (v.video_pkt_count + 1) % 0x1_0000_0000
            &&& more.video_byte_count == (v.video_byte_count + packet.len()) % 0x1_0000_0000
            &&& packets.len() == 0 ==> v.video_seq == stream.video_seq && v.video_pkt_count
                == stream.video_pkt_count && v.video_byte_count == stream.video_byte_count
            &&& v.video_frame_id == (stream.video_frame_id + 1) % 0x1_0000_0000
            &&& counts_ticks(v.last_video_rtp_ts, timestamp_us as int, 90_000)
            &&& v.audio_seq == stream.audio_seq && v.audio_frame_id == stream.audio_frame_id
            &&& v.audio_pkt_count == stream.audio_pkt_count && v.audio_byte_count
                == stream.audio_byte_count && v.last_audio_rtp_ts == stream.last_audio_rtp_ts
            &&& v.video == stream.video && v.audio == stream.audio
            &&& a.audio_seq == (stream.audio_seq + 1) % 0x1_0000
            &&& a.audio_pkt_count == (stream.audio_pkt_count + 1) % 0x1_0000_0000
            &&& a.audio_byte_count == (stream.audio_byte_count + packet.len()) % 0x1_0000_0000
            &&& a.audio_frame_id == (stream.audio_frame_id + 1) % 0x1_0000_0000
            &&& counts_ticks(a.last_audio_rtp_ts, timestamp_us as int, 48_000)
            &&& a.video_seq == stream.video_seq && a.video_frame_id == stream.video_frame_id
            &&& a.video_pkt_count == stream.video_pkt_count && a.video_byte_count
                == stream.video_byte_count && a.last_video_rtp_ts == stream.last_video_rtp_ts
            &&& a.video == stream.video && a.audio == stream.audio
        }),
{
    let n = packets.len() as int;
    lemma_total_push(packets, packet);
    lemma_seq16(stream.video_seq + n, 1);
    lemma_low32(stream.video_pkt_count as int, n, 1);
    lemma_low32(stream.video_byte_count as int, total_len(packets), packet.len() as int);
    clocks_count_to_the_tick(timestamp_us as int);
    assert(packets.push(packet).len() == n + 1);
}

/// Reports are sent once a second has passed, one for each stream, the video's
/// first. Each names its stream and carries its counts, the time stamp of its
/// last frame and the time of day.
pub proof fn reports_are_read_back(
    stream: MirrorStream,
    elapsed_us: u64,
    secs: u64,
    nanos: u32,
    i: int,
)
    requires
        nanos < 1_000_000_000,
        0 <= i < due_reports(stream, elapsed_us, secs, nanos).len(),
    ensures
        ({
            let p = due_reports(stream, elapsed_us, secs, nanos)[i];
            &&& elapsed_us >= 1_000_000
            &&& due_reports(stream, elapsed_us, secs, nanos).len() == if stream.audio is Some {
                2nat
            } else {
                1
            }
            &&& p[1] == 200
            &&& be_value(p.subrange(8, 12)) == (secs + 2_208_988_800) % 0x1_0000_0000
            &&& be_value(p.subrange(12, 16)) * 1_000_000_000 <= nanos * 0x1_0000_0000 < (be_value(
                p.subrange(12, 16),
            ) + 1) * 1_000_000_000
            &&& i == 0 ==> {
                &&& be_value(p.subrange(4, 8)) == stream.video.ssrc
                &&& be_value(p.subrange(16, 20)) == stream.last_video_rtp_ts
                &&& be_value(p.subrange(20, 24)) == stream.video_pkt_count
                &&& be_value(p.subrange(24, 28)) == stream.video_byte_count
            }
            &&& i == 1 ==> {
                &&& stream.audio matches Some(a) && be_value(p.subrange(4, 8)) == a.ssrc
                &&& be_value(p.subrange(16, 20)) == stream.last_audio_rtp_ts
                &&& be_value(p.subrange(20, 24)) == stream.audio_pkt_count
                &&& be_value(p.subrange(24, 28)) == stream.audio_byte_count
            }
        }),
        due_reports(stream, 999_999, secs, nanos).len() == 0,
{
    let sec = ntp_seconds(secs as int);
    let frac = ntp_fraction(nanos as int);
    crate::chromecast::rtp::ntp_counts_from_1900(secs as int, nanos as int);
    crate::chromecast::rtp::report_is_read_back(
        stream.video.ssrc,
        sec,
        frac,
        stream.last_video_rtp_ts,
        stream.video_pkt_count,
        stream.video_byte_count,
    );
    if let Some(a) = stream.audio {
        crate::chromecast::rtp::report_is_read_back(
            a.ssrc,
            sec,
            frac,
            stream.last_audio_rtp_ts,
            stream.audio_pkt_count,
            stream.audio_byte_count,
        );
    }
}

/// A key of sixteen bytes spells the identifier that it was made of, upper half
/// first.
pub proof fn keys_spell_their_identifier(id: u128)
    ensures
        id_bytes(id).len() == 16,
        be_value(id_bytes(id).take(8)) * 0x1_0000_0000_0000_0000 + be_value(id_bytes(id).skip(8))
            == id,
{
    let high = id as nat / 0x1_0000_0000_0000_0000;
    let low = id as nat % 0x1_0000_0000_0000_0000;
    crate::octets::lemma_be_bytes_len(high, 8);
    crate::octets::lemma_be_bytes_len(low, 8);
    reveal_with_fuel(crate::octets::pow256, 9);
    assert(crate::octets::pow256(8) == 0x1_0000_0000_0000_0000);
    crate::octets::be_bytes_round_trip(high, 8);
    crate::octets::be_bytes_round_trip(low, 8);
    assert(id_bytes(id).take(8) =~= be_bytes(high, 8));
    assert(id_bytes(id).skip(8) =~= be_bytes(low, 8));
}

} // verus!
