//! What happens to each sound buffer that the media server hands over.

use vstd::prelude::*;

use crate::media::{AudioCodec, AudioFrame};
use crate::octets::copy_range;

verus! {

/// The bytes of one sample of one channel.
pub const BYTES_PER_SAMPLE: usize = 2;

/// The running state of a sound stream.
#[derive(Clone, Copy, Debug, PartialEq, Eq, Structural)]
pub struct AudioStream {
    /// What was asked for.
    pub sample_rate: u32,
    pub channels: u16,
    /// What was agreed on; zero before that.
    pub agreed_rate: u32,
    pub agreed_channels: u16,
    /// The time of the first buffer.
    pub anchor_us: Option<u64>,
    /// The samples since then.
    pub samples: u64,
}

/// The sum, or the largest number of 64 bits.
pub open spec fn sat64(n: int) -> int {
    if n > u64::MAX {
        u64::MAX as int
    } else {
        n
    }
}

/// The end of the part of `len` mapped bytes that a chunk covers.
pub open spec fn chunk_end(len: int, offset: int, size: int) -> int {
    if offset + size < len {
        offset + size
    } else {
        len
    }
}

/// How many samples of all channels so many bytes hold.
pub open spec fn sample_count(bytes: int, channels: u16) -> int {
    bytes / 2 / (if channels == 0 {
        1int
    } else {
        channels as int
    })
}

/// The time of the next buffer: that of the first one, and then as much later
/// as the samples since then last. `now` is the time of a first buffer.
pub open spec fn stamp(stream: AudioStream, now: u64) -> int {
    match stream.anchor_us {
        None => now as int,
        Some(anchor) => sat64(
            anchor + sat64(stream.samples * 1_000_000) / (if stream.sample_rate == 0 {
                1int
            } else {
                stream.sample_rate as int
            }),
        ),
    }
}

/// Whether a chunk holds at least one sample of all channels.
pub open spec fn has_samples(stream: AudioStream, len: int, offset: int, size: int) -> bool {
    &&& size > 0
    &&& chunk_end(len, offset, size) > offset
    &&& sample_count(chunk_end(len, offset, size) - offset, stream.channels) > 0
}

/// The bytes of a frame: those captured, or silence of the same length.
pub open spec fn heard(captured: Seq<u8>, muted: bool) -> Seq<u8> {
    if muted {
        Seq::new(captured.len(), |i: int| 0u8)
    } else {
        captured
    }
}

/// The rate that frames carry: what was agreed on, or asked for until then.
pub open spec fn told_rate(stream: AudioStream) -> u32 {
    if stream.agreed_rate > 0 {
        stream.agreed_rate
    } else {
        stream.sample_rate
    }
}

/// The channels that frames carry: what was agreed on, or asked for until then.
pub open spec fn told_channels(stream: AudioStream) -> u16 {
    if stream.agreed_channels > 0 {
        stream.agreed_channels
    } else {
        stream.channels
    }
}

/// The stream after so many more samples, the first of them at `now`.
pub open spec fn after_samples(stream: AudioStream, count: int, now: u64) -> AudioStream {
    AudioStream {
        anchor_us: Some(
            match stream.anchor_us {
                Some(a) => a,
                None => now,
            },
        ),
        samples: sat64(stream.samples + count) as u64,
        ..stream
    }
}

fn add_sat(a: u64, b: u64) -> (s: u64)
    ensures
        s == sat64(a + b),
{
    match a.checked_add(b) {
        Some(s) => s,
        None => u64::MAX,
    }
}

impl AudioStream {
    /// A stream that asks for the rate and the channels.
    pub fn new(sample_rate: u32, channels: u16) -> (stream: Self)
        ensures
            stream == (AudioStream {
                sample_rate,
                channels,
                agreed_rate: 0,
                agreed_channels: 0,
                anchor_us: None,
                samples: 0,
            }),
    {
        AudioStream {
            sample_rate,
            channels,
            agreed_rate: 0,
            agreed_channels: 0,
            anchor_us: None,
            samples: 0,
        }
    }

    /// Keeps what was agreed on, and says whether it is what was asked for.
    pub fn agree(&mut self, rate: u32, channels: u16) -> (exact: bool)
        ensures
            exact == (rate == old(self).sample_rate && channels == old(self).channels),
            *final(self) == (AudioStream {
                agreed_rate: rate,
                agreed_channels: channels,
                ..*old(self)
            }),
    {
        self.agreed_rate = rate;
        self.agreed_channels = channels;
        rate == self.sample_rate && channels == self.channels
    }

    /// The frame of a chunk: its bytes, or silence of the same length while
    /// muted, stamped by the samples that came before. The frame carries what
    /// was agreed on, or what was asked for until then. A chunk without a
    /// whole sample gives no frame and changes nothing.
    pub fn process(
        &mut self,
        mapped: &[u8],
        chunk_offset: usize,
        chunk_size: usize,
        muted: bool,
        now_us: u64,
    ) -> (frame: Option<AudioFrame>)
        ensures
            match frame {
                None => !has_samples(
                    *old(self),
                    mapped@.len() as int,
                    chunk_offset as int,
                    chunk_size as int,
                ) && *final(self) == *old(self),
                Some(f) => {
                    let end = chunk_end(
                        mapped@.len() as int,
                        chunk_offset as int,
                        chunk_size as int,
                    );
                    &&& has_samples(
                        *old(self),
                        mapped@.len() as int,
                        chunk_offset as int,
                        chunk_size as int,
                    )
                    &&& f.codec == AudioCodec::Pcm
                    &&& f.data@ == heard(mapped@.subrange(chunk_offset as int, end), muted)
                    &&& f.timestamp_us == stamp(*old(self), now_us)
                    &&& f.sample_rate == told_rate(*old(self))
                    &&& f.channels == told_channels(*old(self))
                    &&& *final(self) == after_samples(
                        *old(self),
                        sample_count(end - chunk_offset, old(self).channels),
                        now_us,
                    )
                },
            },
    {
        if chunk_size == 0 {
            return None;
        }
        let len: usize = mapped.len();
        if chunk_offset >= len {
            return None;
        }
        let end: usize = if chunk_size < len - chunk_offset {
            chunk_offset + chunk_size
        } else {
            len
        };
        let divisor: usize = if self.channels == 0 {
            1
        } else {
            self.channels as usize
        };
        let count: u64 = ((end - chunk_offset) / BYTES_PER_SAMPLE / divisor) as u64;
        if count == 0 {
            return None;
        }
        let data: Vec<u8> = if muted {
            silence(end - chunk_offset)
        } else {
            copy_range(mapped, chunk_offset, end)
        };
        let timestamp_us: u64 = match self.anchor_us {
            Some(anchor) => {
                let scaled: u64 = match self.samples.checked_mul(1_000_000) {
                    Some(s) => s,
                    None => u64::MAX,
                };
                let rate: u64 = if self.sample_rate == 0 {
                    1
                } else {
                    self.sample_rate as u64
                };
                add_sat(anchor, scaled / rate)
            },
            None => {
                self.anchor_us = Some(now_us);
                now_us
            },
        };
        self.samples = add_sat(self.samples, count);
        Some(
            AudioFrame {
                codec: AudioCodec::Pcm,
                data,
                timestamp_us,
                sample_rate: if self.agreed_rate > 0 {
                    self.agreed_rate
                } else {
                    self.sample_rate
                },
                channels: if self.agreed_channels > 0 {
                    self.agreed_channels
                } else {
                    self.channels
                },
            },
        )
    }
}

fn silence(len: usize) -> (out: Vec<u8>)
    ensures
        out@ == Seq::new(len as nat, |i: int| 0u8),
{
    let mut out: Vec<u8> = Vec::new();
    while out.len() < len
        invariant
            out@.len() <= len,
            out@ == Seq::new(out@.len(), |i: int| 0u8),
        decreases len - out@.len(),
    {
        out.push(0u8);
        assert(out@ =~= Seq::new(out@.len(), |i: int| 0u8));
    }
    out
}

/// Time stamps never go back: more samples never give an earlier stamp.
pub proof fn stamps_are_monotone(before: AudioStream, after: AudioStream, now: u64)
    requires
        before.anchor_us is Some,
        after.anchor_us == before.anchor_us,
        after.sample_rate == before.sample_rate,
        before.samples <= after.samples,
    ensures
        stamp(before, now) <= stamp(after, now),
{
    let d = if before.sample_rate == 0 {
        1int
    } else {
        before.sample_rate as int
    };
    let a = sat64(before.samples * 1_000_000);
    let b = sat64(after.samples * 1_000_000);
    assert(a / d <= b / d) by {
        vstd::arithmetic::div_mod::lemma_div_is_ordered(a, b, d);
    }
}

/// Time stamps go strictly forward with every sample, at rates of up to a
/// million samples a second and as long as they fit in 64 bits.
pub proof fn stamps_are_strict(before: AudioStream, after: AudioStream, now: u64)
    requires
        before.anchor_us is Some,
        after.anchor_us == before.anchor_us,
        after.sample_rate == before.sample_rate,
        before.sample_rate <= 1_000_000,
        before.samples < after.samples,
        after.anchor_us->0 + after.samples * 1_000_000 <= u64::MAX,
    ensures
        stamp(before, now) < stamp(after, now),
{
    let d = if before.sample_rate == 0 {
        1int
    } else {
        before.sample_rate as int
    };
    let a = before.samples * 1_000_000;
    let b = after.samples * 1_000_000;
    assert(a + d <= b);
    assert((a + d) / d == a / d + 1) by {
        vstd::arithmetic::div_mod::lemma_div_plus_one(a, d);
    }
    vstd::arithmetic::div_mod::lemma_div_is_ordered(a + d, b, d);
    vstd::arithmetic::div_mod::lemma_div_is_ordered(0, a, d);
    assert(b / d <= b) by (nonlinear_arith)
        requires
            b >= 0,
            d >= 1,
    ;
}

/// The speaker positions of the channels.
pub open spec fn positions_of(channels: u16, left: u32, right: u32) -> Seq<u32> {
    if channels == 1 {
        seq![left]
    } else {
        seq![left, right]
    }
}

/// The speaker positions of the channels: the left one alone for mono, left
/// and right otherwise.
pub fn speaker_positions(channels: u16, left: u32, right: u32) -> (positions: Vec<u32>)
    ensures
        positions@ == positions_of(channels, left, right),
{
    let positions: Vec<u32> = if channels == 1 {
        vec![left]
    } else {
        vec![left, right]
    };
    assert(positions@ =~= positions_of(channels, left, right));
    positions
}

/// The first buffer is stamped with its time, every later one with the time of
/// the first and as much as the samples in between last, to the microsecond.
pub proof fn stamps_follow_the_samples(stream: AudioStream, anchor: u64, now: u64)
    requires
        stream.sample_rate > 0,
        anchor + stream.samples * 1_000_000 <= u64::MAX,
    ensures
        stamp(AudioStream { anchor_us: None, ..stream }, now) == now,
        ({
            let s = stamp(AudioStream { anchor_us: Some(anchor), ..stream }, now);
            (s - anchor) * stream.sample_rate <= stream.samples * 1_000_000 < (s - anchor + 1)
                * stream.sample_rate
        }),
{
    let x = stream.samples * 1_000_000;
    let r = stream.sample_rate as int;
    vstd::arithmetic::div_mod::lemma_fundamental_div_mod(x, r);
    assert((x / r) * r <= x < (x / r + 1) * r) by (nonlinear_arith)
        requires
            x == r * (x / r) + x % r,
            0 <= x % r < r,
    ;
    assert(x / r <= x) by (nonlinear_arith)
        requires
            x >= 0,
            r >= 1,
            (x / r) * r <= x,
    ;
    assert(stamp(AudioStream { anchor_us: Some(anchor), ..stream }, now) == anchor + x / r);
}

/// A sample takes two bytes of each channel; bytes that make no whole sample of
/// all channels do not count.
pub proof fn samples_take_two_bytes_a_channel(bytes: int, channels: u16)
    requires
        bytes >= 0,
        channels > 0,
    ensures
        sample_count(bytes, channels) * 2 * channels <= bytes < (sample_count(bytes, channels) + 1)
            * 2 * channels,
        BYTES_PER_SAMPLE == 2,
{
    let c = channels as int;
    let h = bytes / 2;
    let n = h / c;
    vstd::arithmetic::div_mod::lemma_fundamental_div_mod(h, c);
    assert(n * 2 * c <= bytes < (n + 1) * 2 * c) by (nonlinear_arith)
        requires
            h == c * n + h % c,
            0 <= h % c < c,
            2 * h <= bytes < 2 * h + 2,
    ;
}

/// A chunk counts as far as it is mapped.
pub proof fn chunks_end_with_the_memory(len: int, offset: int, size: int)
    ensures
        chunk_end(len, offset, size) <= len,
        chunk_end(len, offset, size) <= offset + size,
        chunk_end(len, offset, size) == len || chunk_end(len, offset, size) == offset + size,
{
}

/// A chunk gives a frame where it holds a whole sample of all channels, and only
/// there.
pub proof fn whole_samples_give_frames(stream: AudioStream, len: int, offset: int, size: int)
    requires
        stream.channels > 0,
        0 <= offset <= len,
        size >= 0,
    ensures
        has_samples(stream, len, offset, size) == (size >= 2 * stream.channels && len - offset >= 2
            * stream.channels),
{
    let n = chunk_end(len, offset, size) - offset;
    samples_take_two_bytes_a_channel(n, stream.channels);
    let k = sample_count(n, stream.channels);
    let c = stream.channels as int;
    assert(k > 0 <==> n >= 2 * c) by (nonlinear_arith)
        requires
            k * 2 * c <= n < (k + 1) * 2 * c,
            c > 0,
    ;
}

/// A muted frame is as long as the sound and all zeros; any other holds the
/// sound byte for byte.
pub proof fn muted_sound_is_silence_of_its_length(captured: Seq<u8>, muted: bool, i: int)
    requires
        0 <= i < captured.len(),
    ensures
        heard(captured, muted).len() == captured.len(),
        muted ==> heard(captured, muted)[i] == 0,
        !muted ==> heard(captured, muted)[i] == captured[i],
{
}

/// Frames carry what was agreed on, once it was; what was asked for tells their
/// length all the same.
pub proof fn agreed_values_come_first(stream: AudioStream, rate: u32, channels: u16)
    requires
        rate > 0,
        channels > 0,
    ensures
        told_rate(AudioStream { agreed_rate: rate, ..stream }) == rate,
        told_rate(AudioStream { agreed_rate: 0, ..stream }) == stream.sample_rate,
        told_channels(AudioStream { agreed_channels: channels, ..stream }) == channels,
        told_channels(AudioStream { agreed_channels: 0, ..stream }) == stream.channels,
{
}

/// Samples add up from frame to frame, and the time of the first one stays.
pub proof fn samples_add_up(stream: AudioStream, a: int, b: int, first: u64, second: u64)
    requires
        a >= 0,
        b >= 0,
        stream.anchor_us is None,
        stream.samples + a + b <= u64::MAX,
    ensures
        ({
            let after = after_samples(after_samples(stream, a, first), b, second);
            &&& after.samples == stream.samples + a + b
            &&& after.anchor_us == Some(first)
            &&& after.sample_rate == stream.sample_rate
            &&& after.channels == stream.channels
            &&& told_rate(after) == told_rate(stream)
            &&& told_channels(after) == told_channels(stream)
        }),
{
}

/// One channel is heard on the left, two on the left and on the right.
pub proof fn speakers_go_from_left_to_right(left: u32, right: u32)
    ensures
        positions_of(1, left, right) == seq![left],
        positions_of(2, left, right) == seq![left, right],
{
}

} // verus!
