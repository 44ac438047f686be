//! Codecs, pixel formats and frames, as every part of the library names them.

use vstd::prelude::*;

verus! {

/// A video codec.
#[derive(Clone, Copy, Debug, PartialEq, Eq, Structural)]
pub enum Codec {
    H264,
    H265,
    Vp8,
    Vp9,
    Av1,
}

/// An audio codec.
#[derive(Clone, Copy, Debug, PartialEq, Eq, Structural)]
pub enum AudioCodec {
    Pcm,
    Aac,
    Opus,
}

/// The name of an audio codec.
pub open spec fn audio_codec_name(codec: AudioCodec) -> Seq<char> {
    match codec {
        AudioCodec::Pcm => "Pcm"@,
        AudioCodec::Aac => "Aac"@,
        AudioCodec::Opus => "Opus"@,
    }
}

impl AudioCodec {
    /// The name of the codec.
    pub fn name(&self) -> (name: &'static str)
        ensures
            name@ == audio_codec_name(*self),
    {
        match self {
            AudioCodec::Pcm => "Pcm",
            AudioCodec::Aac => "Aac",
            AudioCodec::Opus => "Opus",
        }
    }
}

/// The sound of a stream.
#[derive(Clone, Copy, Debug, PartialEq, Eq, Structural)]
pub struct AudioStreamConfig {
    pub codec: AudioCodec,
    pub channels: u16,
    pub bitrate_kbps: u32,
}

/// How a stream is set up.
#[derive(Clone, Copy, Debug, PartialEq, Eq, Structural)]
pub struct StreamConfig {
    pub codec: Codec,
    pub width: u32,
    pub height: u32,
    pub fps: u32,
    pub bitrate_kbps: u32,
    pub audio: Option<AudioStreamConfig>,
}

/// The layout of the pixels of a raw frame.
#[derive(Clone, Copy, Debug, PartialEq, Eq, Structural)]
pub enum PixelFormat {
    Bgra,
    Rgba,
    Nv12,
    I420,
}

/// A frame as it was captured, in memory.
#[derive(Debug, PartialEq, Eq)]
pub struct RawFrame {
    pub width: u32,
    pub height: u32,
    pub stride: u32,
    pub format: PixelFormat,
    pub data: Vec<u8>,
    pub timestamp_us: u64,
}

/// A frame as an encoder handed it out.
#[derive(Debug, PartialEq, Eq)]
pub struct EncodedFrame {
    pub codec: Codec,
    pub data: Vec<u8>,
    pub timestamp_us: u64,
    pub is_keyframe: bool,
    pub duration_us: Option<u64>,
}

/// A piece of sound.
#[derive(Debug, PartialEq, Eq)]
pub struct AudioFrame {
    pub codec: AudioCodec,
    pub data: Vec<u8>,
    pub timestamp_us: u64,
    pub sample_rate: u32,
    pub channels: u16,
}

/// The codecs of sound are called by their names.
pub proof fn sound_codecs_have_their_names()
    ensures
        audio_codec_name(AudioCodec::Pcm) == "Pcm"@,
        audio_codec_name(AudioCodec::Aac) == "Aac"@,
        audio_codec_name(AudioCodec::Opus) == "Opus"@,
{
}

} // verus!
