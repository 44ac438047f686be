//! An encoder that hands frames through unchanged.

use vstd::prelude::*;

use crate::error::FerricastError;
use crate::media::{Codec, EncodedFrame, RawFrame};
use crate::octets::copy_range;

verus! {

/// How an encoder is set up.
#[derive(Clone, Copy, Debug, PartialEq, Eq, Structural)]
pub struct EncoderConfig {
    pub codec: Codec,
    pub keyframe_interval: u32,
}

/// Whether the frame behind so many others is a key frame.
pub open spec fn is_key(count: int, interval: int) -> bool {
    count % interval == 0
}

/// Labels raw frames as encoded ones, every so many as a key frame.
pub struct PassthroughEncoder {
    codec: Codec,
    frame_count: u64,
    keyframe_interval: u32,
}

impl PassthroughEncoder {
    /// The codec that frames are labelled with.
    pub closed spec fn label(self) -> Codec {
        self.codec
    }

    /// How many frames were encoded.
    pub closed spec fn count(self) -> u64 {
        self.frame_count
    }

    /// After how many frames the next key frame comes.
    pub closed spec fn interval(self) -> u32 {
        self.keyframe_interval
    }

    /// An encoder that has seen no frame, with a key frame every sixty frames.
    pub fn new(codec: Codec) -> (encoder: Self)
        ensures
            encoder.label() == codec,
            encoder.count() == 0,
            encoder.interval() == 60,
    {
        PassthroughEncoder { codec, frame_count: 0, keyframe_interval: 60 }
    }

    /// The codec that frames are labelled with.
    pub fn codec(&self) -> (codec: Codec)
        ensures
            codec == self.label(),
    {
        self.codec
    }

    /// Takes over codec and key frame interval; the frame count goes on.
    pub fn configure(&mut self, config: &EncoderConfig) -> (out: Result<(), FerricastError>)
        ensures
            out is Ok,
            final(self).label() == config.codec,
            final(self).interval() == config.keyframe_interval,
            final(self).count() == old(self).count(),
    {
        self.codec = config.codec;
        self.keyframe_interval = config.keyframe_interval;
        Ok(())
    }

    /// The frame with its bytes and time stamp as they are. The first frame
    /// and every one a whole number of intervals after it is a key frame.
    pub fn encode(&mut self, frame: &RawFrame) -> (out: Result<EncodedFrame, FerricastError>)
        requires
            old(self).interval() > 0,
            old(self).count() < u64::MAX,
        ensures
            final(self).label() == old(self).label(),
            final(self).interval() == old(self).interval(),
            final(self).count() == old(self).count() + 1,
            out matches Ok(e) && {
                &&& e.codec == old(self).label()
                &&& e.data@ == frame.data@
                &&& e.timestamp_us == frame.timestamp_us
                &&& e.is_keyframe == is_key(old(self).count() as int, old(self).interval() as int)
                &&& e.duration_us is None
            },
    {
        let is_keyframe: bool = self.frame_count % self.keyframe_interval as u64 == 0;
        self.frame_count = self.frame_count + 1;
        let data: Vec<u8> = copy_range(frame.data.as_slice(), 0, frame.data.len());
        assert(data@ =~= frame.data@);
        Ok(
            EncodedFrame {
                codec: self.codec,
                data,
                timestamp_us: frame.timestamp_us,
                is_keyframe,
                duration_us: None,
            },
        )
    }

    /// Nothing is ever held back.
    pub fn flush(&mut self) -> (out: Result<Vec<EncodedFrame>, FerricastError>)
        ensures
            out matches Ok(frames) && frames@.len() == 0,
            *final(self) == *old(self),
    {
        Ok(Vec::new())
    }
}

/// Key frames come exactly one interval apart.
pub proof fn keyframes_are_one_interval_apart(count: u64, interval: u32, step: int)
    requires
        interval > 0,
        count as int % interval as int == 0,
        0 < step <= interval,
    ensures
        (count + step) % interval as int == 0 <==> step == interval,
{
    let n = interval as int;
    let q = count as int / n;
    vstd::arithmetic::div_mod::lemma_fundamental_div_mod(count as int, n);
    if step < n {
        assert((count + step) % n == step) by {
            vstd::arithmetic::div_mod::lemma_fundamental_div_mod_converse(
                count + step,
                n,
                q,
                step,
            );
        }
    } else {
        assert((count + step) % n == 0) by {
            assert(n * (q + 1) == n * q + n) by (nonlinear_arith);
            vstd::arithmetic::div_mod::lemma_fundamental_div_mod_converse(
                count + step,
                n,
                q + 1,
                0,
            );
        }
    }
}

/// The first frame of each whole interval is a key frame and none of the others.
pub proof fn each_interval_begins_with_a_key_frame(round: int, interval: int, place: int)
    requires
        round >= 0,
        0 <= place < interval,
    ensures
        is_key(round * interval + place, interval) <==> place == 0,
{
    vstd::arithmetic::div_mod::lemma_fundamental_div_mod_converse(
        round * interval + place,
        interval,
        round,
        place,
    );
}

} // verus!
