//! Video formats as the compositor and the encoders name them, and what is
//! offered and agreed on.

use vstd::prelude::*;
use vstd::string::*;

use crate::error::FerricastError;
use crate::media::PixelFormat;
use crate::text::join2;

verus! {

/// The modifier of buffers whose rows lie one after another.
pub const DRM_FORMAT_MOD_LINEAR: u64 = 0;

/// The modifier of buffers whose producer picked none.
pub const DRM_FORMAT_MOD_INVALID: u64 = 0x00ff_ffff_ffff_ffff;

/// A video format of the media server.
#[derive(Clone, Copy, Debug, PartialEq, Eq, Structural)]
pub enum VideoFormat {
    BGRx,
    BGRA,
    RGBx,
    RGBA,
    NV12,
    I420,
    Other(u32),
}

/// The formats that encoders are fed with, the preferred one first.
pub open spec fn supported() -> Seq<VideoFormat> {
    seq![VideoFormat::BGRx, VideoFormat::BGRA, VideoFormat::RGBx, VideoFormat::RGBA]
}

/// The formats that encoders are fed with, the preferred one first.
pub fn supported_formats() -> (formats: Vec<VideoFormat>)
    ensures
        formats@ == supported(),
{
    let formats: Vec<VideoFormat> = vec![
        VideoFormat::BGRx,
        VideoFormat::BGRA,
        VideoFormat::RGBx,
        VideoFormat::RGBA,
    ];
    assert(formats@ =~= supported());
    formats
}

/// The pixel format of a video format, if it has one.
pub open spec fn pixels_of(format: VideoFormat) -> Option<PixelFormat> {
    match format {
        VideoFormat::BGRA | VideoFormat::BGRx => Some(PixelFormat::Bgra),
        VideoFormat::RGBA | VideoFormat::RGBx => Some(PixelFormat::Rgba),
        VideoFormat::NV12 => Some(PixelFormat::Nv12),
        VideoFormat::I420 => Some(PixelFormat::I420),
        VideoFormat::Other(_) => None,
    }
}

/// The pixel format of a video format, if it has one.
pub fn pixel_format(format: VideoFormat) -> (pixels: Option<PixelFormat>)
    ensures
        pixels == pixels_of(format),
{
    match format {
        VideoFormat::BGRA | VideoFormat::BGRx => Some(PixelFormat::Bgra),
        VideoFormat::RGBA | VideoFormat::RGBx => Some(PixelFormat::Rgba),
        VideoFormat::NV12 => Some(PixelFormat::Nv12),
        VideoFormat::I420 => Some(PixelFormat::I420),
        VideoFormat::Other(_) => None,
    }
}

/// Every format that is offered has a pixel format of four bytes.
pub proof fn offered_formats_have_pixels(i: int)
    requires
        0 <= i < supported().len(),
    ensures
        pixels_of(supported()[i]) == Some(PixelFormat::Bgra) || pixels_of(supported()[i]) == Some(
            PixelFormat::Rgba,
        ),
{
}

/// The bytes of a pixel, zero for the formats whose planes are apart.
pub open spec fn pixel_bytes(format: PixelFormat) -> u32 {
    match format {
        PixelFormat::Bgra | PixelFormat::Rgba => 4,
        PixelFormat::Nv12 | PixelFormat::I420 => 0,
    }
}

/// The bytes of a pixel, zero for the formats whose planes are apart.
pub fn bytes_per_pixel(format: PixelFormat) -> (n: u32)
    ensures
        n == pixel_bytes(format),
{
    match format {
        PixelFormat::Bgra | PixelFormat::Rgba => 4,
        PixelFormat::Nv12 | PixelFormat::I420 => 0,
    }
}

/// A format proposal as the media server reports it.
pub struct VideoInfo {
    pub format: VideoFormat,
    /// The name of the format, for messages.
    pub format_name: String,
    pub width: u32,
    pub height: u32,
    pub framerate_num: u32,
    pub framerate_denom: u32,
    pub modifier: u64,
}

/// What was agreed on.
#[derive(Clone, Copy, Debug, PartialEq, Eq, Structural)]
pub struct NegotiatedFormat {
    pub width: u32,
    pub height: u32,
    pub pixel_format: PixelFormat,
    pub spa_format: VideoFormat,
    pub framerate_num: u32,
    pub framerate_denom: u32,
    /// The modifier of shared buffers; plain memory has none.
    pub modifier: Option<u64>,
}

/// Whether buffers of the modifier can be read by the processor as they lie.
pub open spec fn cpu_readable(modifier: Option<u64>) -> bool {
    match modifier {
        None => true,
        Some(m) => m == DRM_FORMAT_MOD_INVALID || m == DRM_FORMAT_MOD_LINEAR,
    }
}

/// The number of frames in a second, rounded to the nearest whole number; zero
/// where the fraction has no value.
pub open spec fn rounded_rate(num: u32, denom: u32) -> int {
    if denom == 0 {
        0
    } else {
        (num + denom as int / 2) / denom as int
    }
}

/// The format that a proposal amounts to, where its pixels are known. A
/// modifier of zero stands for none.
pub open spec fn negotiated_of(info: VideoInfo) -> NegotiatedFormat {
    NegotiatedFormat {
        width: info.width,
        height: info.height,
        pixel_format: pixels_of(info.format)->0,
        spa_format: info.format,
        framerate_num: info.framerate_num,
        framerate_denom: info.framerate_denom,
        modifier: if info.modifier == 0 {
            None
        } else {
            Some(info.modifier)
        },
    }
}

impl NegotiatedFormat {
    /// Takes a proposal, unless its format has no pixel format. A modifier of
    /// zero stands for none.
    pub fn from_video_info(info: &VideoInfo) -> (out: Result<Self, FerricastError>)
        ensures
            match out {
                Ok(n) => pixels_of(info.format) is Some && n == negotiated_of(*info),
                Err(e) => pixels_of(info.format) is None && e.is_capture(
                    "PipeWire negotiated unsupported video format: "@ + info.format_name@,
                ),
            },
    {
        match pixel_format(info.format) {
            None => Err(
                FerricastError::Capture(
                    join2(
                        "PipeWire negotiated unsupported video format: ",
                        info.format_name.as_str(),
                    ),
                ),
            ),
            Some(pixels) => Ok(
                NegotiatedFormat {
                    width: info.width,
                    height: info.height,
                    pixel_format: pixels,
                    spa_format: info.format,
                    framerate_num: info.framerate_num,
                    framerate_denom: info.framerate_denom,
                    modifier: if info.modifier == 0 {
                        None
                    } else {
                        Some(info.modifier)
                    },
                },
            ),
        }
    }

    /// Whether the buffers can be read by the processor as they lie.
    pub fn modifier_is_cpu_readable(&self) -> (readable: bool)
        ensures
            readable == cpu_readable(self.modifier),
    {
        match self.modifier {
            None => true,
            Some(m) => m == DRM_FORMAT_MOD_INVALID || m == DRM_FORMAT_MOD_LINEAR,
        }
    }

    /// Whether buffers of `other` cannot stand in for buffers of this format.
    pub open spec fn differs(self, other: NegotiatedFormat) -> bool {
        ||| self.width != other.width
        ||| self.height != other.height
        ||| self.spa_format != other.spa_format
        ||| self.modifier != other.modifier
    }
}

/// The pixel format that is assumed until one was agreed on.
pub fn agreed_pixel_format(agreed: &Option<NegotiatedFormat>) -> (format: PixelFormat)
    ensures
        format == match *agreed {
            Some(n) => n.pixel_format,
            None => PixelFormat::Bgra,
        },
{
    match agreed {
        Some(n) => n.pixel_format,
        None => PixelFormat::Bgra,
    }
}

/// The screen size, zero until a format was agreed on.
pub fn agreed_screen_size(agreed: &Option<NegotiatedFormat>) -> (size: (usize, usize))
    ensures
        size == match *agreed {
            Some(n) => (n.width as usize, n.height as usize),
            None => (0usize, 0usize),
        },
{
    match agreed {
        Some(n) => (n.width as usize, n.height as usize),
        None => (0, 0),
    }
}

/// The frames in a second, rounded, and zero until a format was agreed on.
pub fn agreed_framerate(agreed: &Option<NegotiatedFormat>) -> (rate: u32)
    ensures
        rate == match *agreed {
            Some(n) => rounded_rate(n.framerate_num, n.framerate_denom),
            None => 0,
        },
{
    match agreed {
        None => 0,
        Some(n) => {
            if n.framerate_denom == 0 {
                return 0;
            }
            let num: u64 = n.framerate_num as u64;
            let denom: u64 = n.framerate_denom as u64;
            let rate: u64 = (num + denom / 2) / denom;
            assert(rate <= u32::MAX) by (nonlinear_arith)
                requires
                    num <= u32::MAX,
                    1 <= denom <= u32::MAX,
                    rate == (num + denom / 2) / denom as int,
            ;
            rate as u32
        },
    }
}

/// A format together with the modifiers that the graphics card can import.
pub struct GpuFormat {
    pub format: VideoFormat,
    pub modifiers: Vec<u64>,
}

/// The sizes and the rate that an offer prefers.
#[derive(Clone, Copy, Debug, PartialEq, Eq, Structural)]
pub struct EnumFormatParams {
    pub default_width: u32,
    pub default_height: u32,
    pub default_fps: u32,
}

/// The size that the portal hinted at, or full HD.
pub open spec fn hinted_size(size_hint: Option<(u32, u32)>) -> (u32, u32) {
    match size_hint {
        Some(s) => s,
        None => (1920, 1080),
    }
}

/// The preferred sizes: those that the portal hinted at, or full HD; the rate
/// at least one.
pub fn offer_params(size_hint: Option<(u32, u32)>, fps: u32) -> (params: EnumFormatParams)
    ensures
        params.default_width == hinted_size(size_hint).0,
        params.default_height == hinted_size(size_hint).1,
        params.default_fps == at_least_one(fps),
{
    let (default_width, default_height) = match size_hint {
        Some((w, h)) => (w, h),
        None => (1920, 1080),
    };
    EnumFormatParams {
        default_width,
        default_height,
        default_fps: if fps == 0 {
            1
        } else {
            fps
        },
    }
}

/// The smallest width and height that are offered.
pub const MIN_OFFERED_SIDE: u32 = 1;

/// The largest width and height that are offered.
pub const MAX_OFFERED_SIDE: u32 = 8192;

/// The lowest rate that is offered, in frames a second.
pub const MIN_OFFERED_FPS: u32 = 0;

/// The highest rate that is offered, in frames a second.
pub const MAX_OFFERED_FPS: u32 = 1000;

/// One entry of the list that is offered: formats, and the modifiers of which
/// one has to be picked where there are any. The sizes and the rate are the
/// preferred ones; every offer takes any from the smallest side to the largest
/// and from the lowest rate to the highest.
pub struct FormatOffer {
    pub formats: Vec<VideoFormat>,
    pub modifiers: Vec<u64>,
    pub width: u32,
    pub height: u32,
    pub fps: u32,
}

/// What an offer says.
pub struct Offer {
    pub formats: Seq<VideoFormat>,
    pub modifiers: Seq<u64>,
    pub width: u32,
    pub height: u32,
    pub fps: u32,
}

impl View for FormatOffer {
    type V = Offer;

    open spec fn view(&self) -> Offer {
        Offer {
            formats: self.formats@,
            modifiers: self.modifiers@,
            width: self.width,
            height: self.height,
            fps: self.fps,
        }
    }
}

/// At least one.
pub open spec fn at_least_one(n: u32) -> u32 {
    if n == 0 {
        1
    } else {
        n
    }
}

fn max_one(n: u32) -> (m: u32)
    ensures
        m == at_least_one(n),
{
    if n == 0 {
        1
    } else {
        n
    }
}

/// An offer of the formats with the modifiers.
pub open spec fn offer_of(
    formats: Seq<VideoFormat>,
    modifiers: Seq<u64>,
    params: EnumFormatParams,
) -> Offer {
    Offer {
        formats,
        modifiers,
        width: at_least_one(params.default_width),
        height: at_least_one(params.default_height),
        fps: at_least_one(params.default_fps),
    }
}

/// The offers of shared buffers: one for each format that has modifiers.
pub open spec fn gpu_offers(gpu: Seq<GpuFormat>, params: EnumFormatParams) -> Seq<Offer>
    decreases gpu.len(),
{
    if gpu.len() == 0 {
        Seq::empty()
    } else {
        let rest = gpu_offers(gpu.drop_last(), params);
        if gpu.last().modifiers@.len() == 0 {
            rest
        } else {
            rest.push(offer_of(seq![gpu.last().format], gpu.last().modifiers@, params))
        }
    }
}

/// Everything that is offered: the shared buffers first, plain memory last.
pub open spec fn all_offers(gpu: Seq<GpuFormat>, params: EnumFormatParams) -> Seq<Offer> {
    gpu_offers(gpu, params).push(offer_of(supported(), Seq::empty(), params))
}

/// The list that is offered on connecting.
pub fn initial_enum_format_list(params: &EnumFormatParams, gpu_formats: &[GpuFormat]) -> (offers:
    Vec<FormatOffer>)
    ensures
        offers@.map_values(|o: FormatOffer| o@) == all_offers(gpu_formats@, *params),
{
    let ghost view = |o: FormatOffer| o@;
    let width: u32 = max_one(params.default_width);
    let height: u32 = max_one(params.default_height);
    let fps: u32 = max_one(params.default_fps);
    let mut offers: Vec<FormatOffer> = Vec::new();
    let mut i: usize = 0;
    assert(offers@.map_values(view) =~= Seq::<Offer>::empty());
    while i < gpu_formats.len()
        invariant
            view == (|o: FormatOffer| o@),
            i <= gpu_formats@.len(),
            width == at_least_one(params.default_width),
            height == at_least_one(params.default_height),
            fps == at_least_one(params.default_fps),
            offers@.map_values(view) == gpu_offers(gpu_formats@.take(i as int), *params),
        decreases gpu_formats@.len() - i,
    {
        let ghost next = gpu_formats@.take(i + 1);
        assert(next.drop_last() =~= gpu_formats@.take(i as int));
        if gpu_formats[i].modifiers.len() > 0 {
            let modifiers: Vec<u64> = copy_modifiers(&gpu_formats[i].modifiers);
            let formats: Vec<VideoFormat> = vec![gpu_formats[i].format];
            assert(formats@ =~= seq![gpu_formats@[i as int].format]);
            let offer = FormatOffer { formats, modifiers, width, height, fps };
            let ghost before = offers@;
            offers.push(offer);
            assert(offers@.map_values(view) =~= before.map_values(view).push(offer@));
        }
        i = i + 1;
    }
    assert(gpu_formats@.take(gpu_formats@.len() as int) =~= gpu_formats@);
    let ghost before = offers@;
    let shm = FormatOffer {
        formats: supported_formats(),
        modifiers: Vec::new(),
        width,
        height,
        fps,
    };
    assert(shm@.modifiers =~= Seq::<u64>::empty());
    offers.push(shm);
    assert(offers@.map_values(view) =~= before.map_values(view).push(shm@));
    offers
}

/// A copy of the modifiers.
pub fn copy_modifiers(modifiers: &Vec<u64>) -> (out: Vec<u64>)
    ensures
        out@ == modifiers@,
{
    let mut out: Vec<u64> = Vec::new();
    let mut i: usize = 0;
    while i < modifiers.len()
        invariant
            i <= modifiers@.len(),
            out@ == modifiers@.take(i as int),
        decreases modifiers@.len() - i,
    {
        out.push(modifiers[i]);
        i = i + 1;
        assert(out@ =~= modifiers@.take(i as int));
    }
    assert(out@ =~= modifiers@);
    out
}

/// Plain memory is always offered, and offered last.
pub proof fn shared_memory_is_the_last_resort(gpu: Seq<GpuFormat>, params: EnumFormatParams)
    ensures
        all_offers(gpu, params).len() >= 1,
        all_offers(gpu, params).last() == offer_of(supported(), Seq::empty(), params),
        forall|i: int|
            0 <= i < all_offers(gpu, params).len() - 1 ==> (#[trigger] all_offers(
                gpu,
                params,
            )[i]).modifiers.len() > 0,
{
    lemma_gpu_offers(gpu, params);
}

proof fn lemma_gpu_offers(gpu: Seq<GpuFormat>, params: EnumFormatParams)
    ensures
        forall|i: int|
            0 <= i < gpu_offers(gpu, params).len() ==> (#[trigger] gpu_offers(
                gpu,
                params,
            )[i]).modifiers.len() > 0,
    decreases gpu.len(),
{
    if gpu.len() > 0 {
        let rest = gpu_offers(gpu.drop_last(), params);
        lemma_gpu_offers(gpu.drop_last(), params);
        assert forall|i: int| 0 <= i < gpu_offers(gpu, params).len() implies (
        #[trigger] gpu_offers(gpu, params)[i]).modifiers.len() > 0 by {
            if i < rest.len() {
                assert(gpu_offers(gpu, params)[i] == rest[i]);
            }
        }
    }
}

/// The kinds of memory that are accepted, as a set of bits.
pub fn accepted_data_types(mem_fd: u32, mem_ptr: u32, dma_buf: u32) -> (mask: i32)
    requires
        mem_fd < 31,
        mem_ptr < 31,
        dma_buf < 31,
    ensures
        mask == (1i32 << mem_fd) | (1i32 << mem_ptr) | (1i32 << dma_buf),
{
    (1i32 << mem_fd) | (1i32 << mem_ptr) | (1i32 << dma_buf)
}

/// A video format has the pixels that its letters name, and pixels of four
/// bytes where red, green and blue lie together.
pub proof fn formats_name_their_pixels(other: u32)
    ensures
        pixels_of(VideoFormat::BGRx) == Some(PixelFormat::Bgra),
        pixels_of(VideoFormat::BGRA) == Some(PixelFormat::Bgra),
        pixels_of(VideoFormat::RGBx) == Some(PixelFormat::Rgba),
        pixels_of(VideoFormat::RGBA) == Some(PixelFormat::Rgba),
        pixels_of(VideoFormat::NV12) == Some(PixelFormat::Nv12),
        pixels_of(VideoFormat::I420) == Some(PixelFormat::I420),
        pixels_of(VideoFormat::Other(other)) is None,
        pixel_bytes(PixelFormat::Bgra) == 4,
        pixel_bytes(PixelFormat::Rgba) == 4,
        pixel_bytes(PixelFormat::Nv12) == 0,
        pixel_bytes(PixelFormat::I420) == 0,
        supported() == seq![
            VideoFormat::BGRx,
            VideoFormat::BGRA,
            VideoFormat::RGBx,
            VideoFormat::RGBA,
        ],
{
}

/// The processor reads plain memory, and shared buffers in the linear layout or
/// in none that was picked; any other layout it cannot read.
pub proof fn only_linear_buffers_can_be_read(modifier: u64)
    ensures
        cpu_readable(None),
        cpu_readable(Some(0)),
        cpu_readable(Some(0x00ff_ffff_ffff_ffff)),
        cpu_readable(Some(modifier)) ==> modifier == 0 || modifier == 0x00ff_ffff_ffff_ffff,
{
}

/// The rate is the whole number nearest to the fraction, the upper one of two.
pub proof fn rate_is_the_nearest(num: u32, denom: u32)
    requires
        denom > 0,
    ensures
        (2 * rounded_rate(num, denom) - 1) * denom <= 2 * num < (2 * rounded_rate(num, denom) + 1)
            * denom,
        rounded_rate(num, 0) == 0,
        rounded_rate(num, 1) == num,
{
    let d = denom as int;
    let x = num + d / 2;
    let q = x / d;
    vstd::arithmetic::div_mod::lemma_fundamental_div_mod(x, d);
    assert((2 * q - 1) * d <= 2 * num < (2 * q + 1) * d) by (nonlinear_arith)
        requires
            x == d * q + x % d,
            0 <= x % d < d,
            x == num + d / 2,
            d > 0,
    ;
}

/// Buffers of one format stand in for those of another where size, format and
/// layout are the same, and only there; the rate does not matter.
pub proof fn buffers_differ_by_size_format_and_layout(a: NegotiatedFormat, b: NegotiatedFormat)
    ensures
        a.differs(b) == !(a.width == b.width && a.height == b.height && a.spa_format
            == b.spa_format && a.modifier == b.modifier),
        a.differs(b) == b.differs(a),
{
}

/// Each format of the card is offered with its own layouts, in the order in
/// which the card's formats come, in sizes and at a rate of at least one; one
/// without a layout is not offered.
pub proof fn each_format_is_offered_with_its_layouts(
    gpu: Seq<GpuFormat>,
    f: GpuFormat,
    params: EnumFormatParams,
)
    ensures
        f.modifiers@.len() > 0 ==> gpu_offers(gpu.push(f), params) == gpu_offers(gpu, params).push(
            Offer {
                formats: seq![f.format],
                modifiers: f.modifiers@,
                width: at_least_one(params.default_width),
                height: at_least_one(params.default_height),
                fps: at_least_one(params.default_fps),
            },
        ),
        f.modifiers@.len() == 0 ==> gpu_offers(gpu.push(f), params) == gpu_offers(gpu, params),
        gpu_offers(Seq::empty(), params).len() == 0,
        at_least_one(0) == 1,
        params.default_width > 0 ==> at_least_one(params.default_width) == params.default_width,
{
    assert(gpu.push(f).drop_last() =~= gpu);
}

/// The limits of what is offered.
pub proof fn offers_have_their_limits()
    ensures
        MIN_OFFERED_SIDE == 1,
        MAX_OFFERED_SIDE == 8192,
        MIN_OFFERED_FPS == 0,
        MAX_OFFERED_FPS == 1000,
        DRM_FORMAT_MOD_LINEAR == 0,
        DRM_FORMAT_MOD_INVALID == 0x00ff_ffff_ffff_ffff,
{
}

/// A proposal is taken as it is, with no modifier where it names none.
pub proof fn proposals_are_taken_as_they_are(info: VideoInfo)
    requires
        pixels_of(info.format) is Some,
    ensures
        ({
            let n = negotiated_of(info);
            &&& n.width == info.width
            &&& n.height == info.height
            &&& pixels_of(n.spa_format) == Some(n.pixel_format)
            &&& n.spa_format == info.format
            &&& n.framerate_num == info.framerate_num
            &&& n.framerate_denom == info.framerate_denom
            &&& n.modifier is Some <==> info.modifier != 0
            &&& n.modifier is Some ==> n.modifier == Some(info.modifier)
        }),
{
}

/// A hint is followed, width and height alike; without one the picture has full
/// HD, which is sixteen by nine.
pub proof fn hints_are_followed(width: u32, height: u32)
    ensures
        hinted_size(Some((width, height))).0 == width,
        hinted_size(Some((width, height))).1 == height,
        hinted_size(None).1 == 1080,
        hinted_size(None).0 * 9 == hinted_size(None).1 * 16,
{
}

} // verus!
