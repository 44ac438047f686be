//! Thumbnails: captured pixels put in order, turned upright and encoded.

use vstd::prelude::*;
use vstd::string::*;

use crate::capture::wayland_direct::{shm_format, shm_format_of, ShmFormat};
use crate::error::SourceError;
use crate::octets::le_value;
use crate::text::{decimal, hex_fixed, join2, push_decimal, push_hex_fixed, str_eq};

verus! {

/// How the pixels of a captured buffer lie.
#[derive(Clone, Copy, Debug, PartialEq, Eq, Structural)]
pub struct BufferInfo {
    pub format: u32,
    pub width: u32,
    pub height: u32,
    pub stride: u32,
}

impl BufferInfo {
    /// The bytes of all rows.
    pub fn size(&self) -> (bytes: usize)
        requires
            self.stride * self.height <= usize::MAX,
        ensures
            bytes == self.stride * self.height,
    {
        self.stride as usize * self.height as usize
    }
}

/// Whether a frame has come.
#[derive(Clone, Copy, Debug, PartialEq, Eq, Structural)]
pub enum FrameStatus {
    Pending,
    Ready,
    Failed,
}

/// A capture of one window as far as the compositor has told.
#[derive(Clone, Copy, Debug, PartialEq, Eq, Structural)]
pub struct WindowCapture {
    pub buffer: Option<BufferInfo>,
    pub formats_done: bool,
    pub status: FrameStatus,
}

/// What the compositor tells of a window capture.
#[derive(Clone, Copy, Debug, PartialEq, Eq, Structural)]
pub enum CaptureEvent {
    BufferSize { width: u32, height: u32 },
    ShmFormat { format: u32 },
    Done,
    Stopped,
    FrameReady,
    FrameFailed,
}

/// Four times as much, or the largest number.
pub open spec fn four_times(width: u32) -> u32 {
    if width * 4 > u32::MAX {
        u32::MAX
    } else {
        (width * 4) as u32
    }
}

/// The capture after an event. Rows are packed, of four bytes a pixel; size and
/// format come in either order.
pub open spec fn after_event(capture: WindowCapture, event: CaptureEvent) -> WindowCapture {
    match event {
        CaptureEvent::BufferSize { width, height } => WindowCapture {
            buffer: Some(
                BufferInfo {
                    format: match capture.buffer {
                        Some(b) => b.format,
                        None => 0,
                    },
                    width,
                    height,
                    stride: four_times(width),
                },
            ),
            ..capture
        },
        CaptureEvent::ShmFormat { format } => WindowCapture {
            buffer: Some(
                match capture.buffer {
                    Some(b) => BufferInfo { format, ..b },
                    None => BufferInfo { format, width: 0, height: 0, stride: 0 },
                },
            ),
            ..capture
        },
        CaptureEvent::Done => WindowCapture { formats_done: true, ..capture },
        CaptureEvent::Stopped => WindowCapture {
            formats_done: true,
            status: FrameStatus::Failed,
            ..capture
        },
        CaptureEvent::FrameReady => WindowCapture { status: FrameStatus::Ready, ..capture },
        CaptureEvent::FrameFailed => WindowCapture { status: FrameStatus::Failed, ..capture },
    }
}

impl WindowCapture {
    /// Nothing was told yet.
    pub fn new() -> (capture: Self)
        ensures
            capture == (WindowCapture {
                buffer: None,
                formats_done: false,
                status: FrameStatus::Pending,
            }),
    {
        WindowCapture { buffer: None, formats_done: false, status: FrameStatus::Pending }
    }

    /// Takes an event.
    pub fn on_event(&mut self, event: CaptureEvent)
        ensures
            *final(self) == after_event(*old(self), event),
    {
        match event {
            CaptureEvent::BufferSize { width, height } => {
                let format: u32 = match self.buffer {
                    Some(b) => b.format,
                    None => 0,
                };
                let stride: u32 = match width.checked_mul(4) {
                    Some(s) => s,
                    None => u32::MAX,
                };
                self.buffer = Some(BufferInfo { format, width, height, stride });
            },
            CaptureEvent::ShmFormat { format } => {
                self.buffer = match self.buffer {
                    Some(b) => Some(
                        BufferInfo {
                            format,
                            width: b.width,
                            height: b.height,
                            stride: b.stride,
                        },
                    ),
                    None => Some(BufferInfo { format, width: 0, height: 0, stride: 0 }),
                };
            },
            CaptureEvent::Done => {
                self.formats_done = true;
            },
            CaptureEvent::Stopped => {
                self.formats_done = true;
                self.status = FrameStatus::Failed;
            },
            CaptureEvent::FrameReady => {
                self.status = FrameStatus::Ready;
            },
            CaptureEvent::FrameFailed => {
                self.status = FrameStatus::Failed;
            },
        }
    }
}

/// The buffer to capture a window into, once the compositor has told all.
pub fn capture_buffer(capture: &WindowCapture) -> (out: Result<BufferInfo, SourceError>)
    ensures
        match out {
            Ok(b) => capture.buffer == Some(b),
            Err(e) => capture.buffer is None && e.is_backend(
                "session emitted `done` without buffer_size/shm_format"@,
            ),
        },
{
    match capture.buffer {
        Some(b) => Ok(b),
        None => Err(
            SourceError::Backend(
                "session emitted `done` without buffer_size/shm_format".to_owned(),
            ),
        ),
    }
}

/// How a frame was captured.
#[derive(Clone, Copy, Debug, PartialEq, Eq, Structural)]
pub enum CaptureKind {
    Monitor,
    Window,
}

/// Whether a frame that is not pending any more came.
pub fn frame_came(kind: CaptureKind, status: FrameStatus) -> (out: Result<(), SourceError>)
    ensures
        match out {
            Ok(()) => status != FrameStatus::Failed,
            Err(e) => status == FrameStatus::Failed && e.is_backend(
                match kind {
                    CaptureKind::Monitor => "compositor returned `failed` for screencopy frame"@,
                    CaptureKind::Window => "compositor returned `failed` for ext-image-copy frame"@,
                },
            ),
        },
{
    match status {
        FrameStatus::Failed => {
            let text: &str = match kind {
                CaptureKind::Monitor => "compositor returned `failed` for screencopy frame",
                CaptureKind::Window => "compositor returned `failed` for ext-image-copy frame",
            };
            Err(SourceError::Backend(text.to_owned()))
        },
        _ => Ok(()),
    }
}

/// An output, its name once that is known, and how it is turned.
pub struct TurnedOutput {
    pub name: Option<String>,
    pub transform: Transform,
}

/// Whether the output has the name.
pub open spec fn is_called(output: TurnedOutput, name: Seq<char>) -> bool {
    output.name matches Some(n) && n@ == name
}

/// The first output with the name.
pub fn find_turned_output(outputs: &[TurnedOutput], id: &str) -> (out: Result<usize, SourceError>)
    ensures
        match out {
            Ok(i) => i < outputs@.len() && is_called(outputs@[i as int], id@) && forall|j: int|
                0 <= j < i ==> !is_called(#[trigger] outputs@[j], id@),
            Err(e) => (forall|j: int|
                0 <= j < outputs@.len() ==> !is_called(#[trigger] outputs@[j], id@)) && (
            e matches SourceError::NotFound(m) && m@ == id@),
        },
{
    let mut i: usize = 0;
    while i < outputs.len()
        invariant
            i <= outputs@.len(),
            forall|j: int| 0 <= j < i ==> !is_called(#[trigger] outputs@[j], id@),
        decreases outputs@.len() - i,
    {
        match &outputs[i].name {
            Some(n) => {
                if str_eq(n.as_str(), id) {
                    return Ok(i);
                }
            },
            None => {},
        }
        i = i + 1;
    }
    Err(SourceError::NotFound(id.to_owned()))
}

/// How a captured monitor has to be put upright: like its output, and flipped
/// where the lowest bit of the frame's flags says so.
pub fn monitor_orientation(transform: Transform, frame_flags: u32) -> (o: Orientation)
    ensures
        o.transform == transform,
        o.y_invert == (frame_flags % 2 == 1),
{
    Orientation { transform, y_invert: frame_flags % 2 == 1 }
}

/// Size and format lead to the same buffer in either order.
pub proof fn size_and_format_commute(
    capture: WindowCapture,
    width: u32,
    height: u32,
    format: u32,
)
    ensures
        after_event(
            after_event(capture, CaptureEvent::BufferSize { width, height }),
            CaptureEvent::ShmFormat { format },
        ) == after_event(
            after_event(capture, CaptureEvent::ShmFormat { format }),
            CaptureEvent::BufferSize { width, height },
        ),
{
}

/// The layout of a thumbnail's pixels, or the error that names the format.
pub fn thumb_format(raw: u32) -> (out: Result<ShmFormat, SourceError>)
    ensures
        match out {
            Ok(f) => shm_format_of(raw) == Some(f),
            Err(e) => shm_format_of(raw) is None && e.is_backend(
                "unsupported wl_shm format 0x"@ + hex_fixed(raw as nat, 8) + " for thumbnails"@,
            ),
        },
{
    match shm_format(raw) {
        Some(f) => Ok(f),
        None => {
            let mut text: String = "unsupported wl_shm format 0x".to_owned();
            push_hex_fixed(&mut text, raw as u64, 8);
            text.append(" for thumbnails");
            Err(SourceError::Backend(text))
        },
    }
}

/// The places of red, green, blue and alpha in a pixel, and whether alpha is
/// to be ignored.
pub fn channels(format: u32) -> (places: (usize, usize, usize, usize, bool))
    ensures
        places == channel_places(format),
{
    match format {
        0 => (2, 1, 0, 3, false),
        1 => (2, 1, 0, 3, true),
        0x34324241 => (0, 1, 2, 3, false),
        0x34324258 => (0, 1, 2, 3, true),
        _ => (0, 1, 2, 3, true),
    }
}

/// The places of red, green, blue and alpha in a pixel, and whether alpha is
/// to be ignored: blue comes first in the first two formats, red in all others.
pub open spec fn channel_places(format: u32) -> (usize, usize, usize, usize, bool) {
    if format == 0 {
        (2, 1, 0, 3, false)
    } else if format == 1 {
        (2, 1, 0, 3, true)
    } else if format == 0x34324241 {
        (0, 1, 2, 3, false)
    } else {
        (0, 1, 2, 3, true)
    }
}

/// One pixel.
#[derive(Clone, Copy, Debug, PartialEq, Eq, Structural)]
pub struct Rgba {
    pub r: u8,
    pub g: u8,
    pub b: u8,
    pub a: u8,
}

/// A picture, row by row from the top.
#[derive(Debug, PartialEq, Eq)]
pub struct Picture {
    pub width: u32,
    pub height: u32,
    pub pixels: Vec<Rgba>,
}

impl Picture {
    /// There is one pixel for each place.
    pub open spec fn wf(self) -> bool {
        self.pixels@.len() == self.width * self.height
    }

    /// The pixel at column `x` of row `y`.
    pub open spec fn at(self, x: int, y: int) -> Rgba {
        self.pixels@[y * self.width + x]
    }
}

/// The pixel at column `x` of row `y` of a captured buffer.
pub open spec fn captured_pixel(info: BufferInfo, src: Seq<u8>, x: int, y: int) -> Rgba {
    let base = y * info.stride + x * 4;
    let c = channel_places(info.format);
    Rgba {
        r: src[base + c.0],
        g: src[base + c.1],
        b: src[base + c.2],
        a: if c.4 {
            0xff
        } else {
            src[base + c.3]
        },
    }
}

/// The captured pixels in order, whatever their layout; a buffer that is
/// shorter than it says is refused.
pub fn captured_picture(info: &BufferInfo, src: &[u8]) -> (out: Result<Picture, SourceError>)
    requires
        info.stride >= info.width * 4,
        info.stride * info.height <= usize::MAX,
    ensures
        match out {
            Ok(p) => {
                &&& src@.len() >= info.stride * info.height
                &&& p.width == info.width
                &&& p.height == info.height
                &&& p.wf()
                &&& forall|i: int|
                    0 <= i < info.width * info.height ==> (#[trigger] p.pixels@[i])
                        == captured_pixel(*info, src@, i % info.width as int, i / info.width as int)
            },
            Err(e) => src@.len() < info.stride * info.height && e.is_backend(
                "shm mmap shorter than declared ("@ + decimal(src@.len()) + " < "@ + decimal(
                    (info.stride * info.height) as nat,
                ) + ")"@,
            ),
        },
{
    let size: usize = info.size();
    if src.len() < size {
        let mut text: String = "shm mmap shorter than declared (".to_owned();
        push_decimal(&mut text, src.len() as u64);
        text.append(" < ");
        push_decimal(&mut text, size as u64);
        text.append(")");
        return Err(SourceError::Backend(text));
    }
    let (r, g, b, a, opaque) = channels(info.format);
    let mut pixels: Vec<Rgba> = Vec::new();
    let width: usize = info.width as usize;
    let height: usize = info.height as usize;
    let stride: usize = info.stride as usize;
    assert(width * height <= stride * height) by (nonlinear_arith)
        requires
            width * 4 <= stride,
    ;
    let count: usize = width * height;
    let mut i: usize = 0;
    while i < count
        invariant
            width == info.width,
            height == info.height,
            stride == info.stride,
            stride >= width * 4,
            count == width * height,
            stride * height <= src@.len(),
            src@.len() <= usize::MAX,
            (r, g, b, a, opaque) == channel_places(info.format),
            i <= count,
            pixels@.len() == i,
            forall|k: int|
                0 <= k < i ==> (#[trigger] pixels@[k]) == captured_pixel(
                    *info,
                    src@,
                    k % info.width as int,
                    k / info.width as int,
                ),
        decreases count - i,
    {
        proof {
            assert(width > 0) by (nonlinear_arith)
                requires
                    i < width * height,
                    i >= 0,
                    width >= 0,
            ;
            lemma_place(i as int, width as int, height as int);
        }
        let y: usize = i / width;
        let x: usize = i % width;
        assert(y * stride + x * 4 + 4 <= stride * height) by (nonlinear_arith)
            requires
                0 <= x,
                0 <= y,
                x < width,
                y < height,
                stride >= width * 4,
        ;
        let base: usize = y * stride + x * 4;
        let alpha: u8 = if opaque {
            0xff
        } else {
            src[base + a]
        };
        pixels.push(Rgba { r: src[base + r], g: src[base + g], b: src[base + b], a: alpha });
        i = i + 1;
    }
    Ok(Picture { width: info.width, height: info.height, pixels })
}

/// The row and column of a running number.
proof fn lemma_place(i: int, w: int, h: int)
    requires
        0 <= i < w * h,
        0 < w,
    ensures
        0 <= i / w < h,
        0 <= i % w < w,
        i == (i / w) * w + i % w,
{
    vstd::arithmetic::div_mod::lemma_fundamental_div_mod(i, w);
    assert(w * (i / w) == (i / w) * w) by (nonlinear_arith);
    assert(0 <= i / w < h) by (nonlinear_arith)
        requires
            0 <= i < w * h,
            0 < w,
            i == w * (i / w) + i % w,
            0 <= i % w,
            i % w < w,
    ;
}

/// How an output is turned.
#[derive(Clone, Copy, Debug, PartialEq, Eq, Structural)]
pub enum Transform {
    Normal,
    Rotated90,
    Rotated180,
    Rotated270,
    Flipped,
    Flipped90,
    Flipped180,
    Flipped270,
}

/// How a captured picture has to be put upright: flipped top to bottom where
/// its rows came from the bottom, then turned like its output.
#[derive(Clone, Copy, Debug, PartialEq, Eq, Structural)]
pub struct Orientation {
    pub transform: Transform,
    pub y_invert: bool,
}

impl Default for Orientation {
    fn default() -> (orientation: Self)
        ensures
            orientation == (Orientation { transform: Transform::Normal, y_invert: false }),
    {
        Orientation { transform: Transform::Normal, y_invert: false }
    }
}

/// Whether a turn swaps width and height.
pub open spec fn swaps_sides(transform: Transform) -> bool {
    match transform {
        Transform::Rotated90 | Transform::Rotated270 | Transform::Flipped90
        | Transform::Flipped270 => true,
        _ => false,
    }
}

/// Where the pixel at column `x` of row `y` of the turned picture stands in
/// the picture of width `w` and height `h` before the turn. A flipped turn
/// flips left to right and then rotates.
pub open spec fn turned_from(transform: Transform, w: int, h: int, x: int, y: int) -> (int, int) {
    match transform {
        Transform::Normal => (x, y),
        Transform::Rotated90 => (y, h - 1 - x),
        Transform::Rotated180 => (w - 1 - x, h - 1 - y),
        Transform::Rotated270 => (w - 1 - y, x),
        Transform::Flipped => (w - 1 - x, y),
        Transform::Flipped90 => (w - 1 - y, h - 1 - x),
        Transform::Flipped180 => (x, h - 1 - y),
        Transform::Flipped270 => (y, x),
    }
}

/// Where the pixel at column `x` of row `y` of the upright picture stands in
/// the captured one.
pub open spec fn upright_from(o: Orientation, w: int, h: int, x: int, y: int) -> (int, int) {
    let p = turned_from(o.transform, w, h, x, y);
    if o.y_invert {
        (p.0, h - 1 - p.1)
    } else {
        p
    }
}

/// Every place of the upright picture comes from a place of the captured one.
pub proof fn upright_stays_inside(o: Orientation, w: int, h: int, x: int, y: int)
    requires
        0 <= x < if swaps_sides(o.transform) {
            h
        } else {
            w
        },
        0 <= y < if swaps_sides(o.transform) {
            w
        } else {
            h
        },
    ensures
        0 <= upright_from(o, w, h, x, y).0 < w,
        0 <= upright_from(o, w, h, x, y).1 < h,
{
}

/// No pixel of the captured picture is used twice.
pub proof fn upright_uses_each_pixel_once(
    o: Orientation,
    w: int,
    h: int,
    x1: int,
    y1: int,
    x2: int,
    y2: int,
)
    requires
        upright_from(o, w, h, x1, y1) == upright_from(o, w, h, x2, y2),
    ensures
        x1 == x2,
        y1 == y2,
{
}

fn source_place(o: &Orientation, w: usize, h: usize, x: usize, y: usize) -> (p: (usize, usize))
    requires
        0 <= x < if swaps_sides(o.transform) {
            h
        } else {
            w
        },
        0 <= y < if swaps_sides(o.transform) {
            w
        } else {
            h
        },
    ensures
        (p.0 as int, p.1 as int) == upright_from(*o, w as int, h as int, x as int, y as int),
{
    let (px, py) = match o.transform {
        Transform::Normal => (x, y),
        Transform::Rotated90 => (y, h - 1 - x),
        Transform::Rotated180 => (w - 1 - x, h - 1 - y),
        Transform::Rotated270 => (w - 1 - y, x),
        Transform::Flipped => (w - 1 - x, y),
        Transform::Flipped90 => (w - 1 - y, h - 1 - x),
        Transform::Flipped180 => (x, h - 1 - y),
        Transform::Flipped270 => (y, x),
    };
    if o.y_invert {
        (px, h - 1 - py)
    } else {
        (px, py)
    }
}

/// The picture as the user sees it on the output.
pub fn upright(picture: &Picture, o: &Orientation) -> (out: Picture)
    requires
        picture.wf(),
    ensures
        out.wf(),
        out.width == if swaps_sides(o.transform) {
            picture.height
        } else {
            picture.width
        },
        out.height == if swaps_sides(o.transform) {
            picture.width
        } else {
            picture.height
        },
        forall|i: int|
            0 <= i < out.width * out.height ==> {
                let p = upright_from(
                    *o,
                    picture.width as int,
                    picture.height as int,
                    i % out.width as int,
                    i / out.width as int,
                );
                (#[trigger] out.pixels@[i]) == picture.at(p.0, p.1)
            },
{
    let w: usize = picture.width as usize;
    let h: usize = picture.height as usize;
    let swap: bool = match o.transform {
        Transform::Rotated90 | Transform::Rotated270 | Transform::Flipped90
        | Transform::Flipped270 => true,
        _ => false,
    };
    let (width, height) = if swap {
        (picture.height, picture.width)
    } else {
        (picture.width, picture.height)
    };
    assert(width * height == picture.width * picture.height) by (nonlinear_arith)
        requires
            (width == picture.width && height == picture.height) || (width == picture.height
                && height == picture.width),
    ;
    let count: usize = picture.pixels.len();
    let mut pixels: Vec<Rgba> = Vec::new();
    let mut i: usize = 0;
    while i < count
        invariant
            picture.wf(),
            w == picture.width,
            h == picture.height,
            swap == swaps_sides(o.transform),
            width == (if swap {
                picture.height
            } else {
                picture.width
            }),
            height == (if swap {
                picture.width
            } else {
                picture.height
            }),
            count == picture.pixels@.len(),
            count == width * height,
            i <= count,
            pixels@.len() == i,
            forall|k: int|
                0 <= k < i ==> {
                    let p = upright_from(
                        *o,
                        picture.width as int,
                        picture.height as int,
                        k % width as int,
                        k / width as int,
                    );
                    (#[trigger] pixels@[k]) == picture.at(p.0, p.1)
                },
        decreases count - i,
    {
        proof {
            assert(width > 0) by (nonlinear_arith)
                requires
                    i < width * height,
                    i >= 0,
                    width >= 0,
            ;
            lemma_place(i as int, width as int, height as int);
        }
        let x: usize = i % width as usize;
        let y: usize = i / width as usize;
        let (px, py) = source_place(o, w, h, x, y);
        proof {
            upright_stays_inside(*o, w as int, h as int, x as int, y as int);
            assert(py * w + px < w * h) by (nonlinear_arith)
                requires
                    0 <= px,
                    0 <= py,
                    px < w,
                    py < h,
            ;
            assert(w * h == picture.width * picture.height) by (nonlinear_arith)
                requires
                    w == picture.width,
                    h == picture.height,
            ;
            assert(0 <= py * w) by (nonlinear_arith)
                requires
                    0 <= py,
                    0 <= w,
            ;
        }
        pixels.push(picture.pixels[py * w + px]);
        i = i + 1;
    }
    Picture { width, height, pixels }
}

/// The picture that the image crate's box filter makes of another, in the size.
pub uninterp spec fn box_filtered(
    width: u32,
    height: u32,
    pixels: Seq<Rgba>,
    new_width: u32,
    new_height: u32,
) -> Seq<Rgba>;

/// The PNG file of a picture, or the complaint about it.
pub uninterp spec fn png_file(width: u32, height: u32, pixels: Seq<Rgba>) -> Result<
    Seq<u8>,
    Seq<char>,
>;

/// How many pixels of a side become one at most: the ratio of the sizes, with
/// room for its rounding to single precision, but never more than there are.
pub open spec fn block_side(size: u32, new_size: u32) -> int {
    if new_size == 0 {
        0
    } else {
        let n = size as int / new_size as int + size as int / 0x20_0000 + 3;
        if n < size {
            n
        } else {
            size as int
        }
    }
}

/// Whether the samples of the pixels that become one, and half of their number
/// for rounding, add up within 32 bits.
pub open spec fn blocks_fit(width: u32, height: u32, new_width: u32, new_height: u32) -> bool {
    let n = block_side(width, new_width) * block_side(height, new_height);
    n * 255 + n / 2 <= u32::MAX
}

/// Whether a picture can be brought to the size: both fit in memory, and the
/// samples of a block add up.
pub open spec fn can_shrink(picture: Picture, new_width: u32, new_height: u32) -> bool {
    &&& picture.pixels@.len() * 4 <= isize::MAX
    &&& new_width * new_height * 4 <= isize::MAX
    &&& blocks_fit(picture.width, picture.height, new_width, new_height)
}

fn side_of_block(size: u32, new_size: u32) -> (n: u32)
    ensures
        n == block_side(size, new_size),
{
    if new_size == 0 {
        return 0;
    }
    let n: u64 = (size / new_size) as u64 + (size / 0x20_0000) as u64 + 3;
    if n < size as u64 {
        n as u32
    } else {
        size
    }
}

/// Whether a picture can be brought to the size.
pub fn thumbnail_fits(picture: &Picture, new_width: u32, new_height: u32) -> (fits: bool)
    requires
        picture.wf(),
    ensures
        fits == can_shrink(*picture, new_width, new_height),
{
    let across: u32 = side_of_block(picture.width, new_width);
    let down: u32 = side_of_block(picture.height, new_height);
    assert(0 <= across * down <= u32::MAX * u32::MAX) by (nonlinear_arith)
        requires
            0 <= across <= u32::MAX,
            0 <= down <= u32::MAX,
    ;
    assert(0 <= new_width * new_height <= u32::MAX * u32::MAX) by (nonlinear_arith)
        requires
            0 <= new_width <= u32::MAX,
            0 <= new_height <= u32::MAX,
    ;
    let n: u128 = across as u128 * down as u128;
    let most: u128 = isize::MAX as u128;
    picture.pixels.len() as u128 * 4 <= most && new_width as u128 * new_height as u128 * 4 <= most
        && n * 255 + n / 2 <= 0xffff_ffff
}

/// `imageops::thumbnail` of image: a picture of the size asked for, a function
/// of the picture and that size. It adds up the samples of each block of
/// pixels in 32 bits.
#[verifier::external_body]
fn shrink(picture: &Picture, new_width: u32, new_height: u32) -> (out: Vec<Rgba>)
    requires
        picture.wf(),
        can_shrink(*picture, new_width, new_height),
    ensures
        out@ == box_filtered(
            picture.width,
            picture.height,
            picture.pixels@,
            new_width,
            new_height,
        ),
        out@.len() == new_width * new_height,
{
    let raw: Vec<u8> = picture.pixels.iter().flat_map(|p| [p.r, p.g, p.b, p.a]).collect();
    let image = image::RgbaImage::from_raw(picture.width, picture.height, raw).unwrap();
    let small = image::imageops::thumbnail(&image, new_width, new_height);
    small.pixels().map(|p| Rgba { r: p[0], g: p[1], b: p[2], a: p[3] }).collect()
}

/// `ImageBuffer::write_to` of image in the PNG format: the file, or what is
/// wrong with the picture; a function of the picture.
#[verifier::external_body]
fn write_png(picture: &Picture) -> (out: Result<Vec<u8>, String>)
    requires
        picture.wf(),
        picture.pixels@.len() * 4 <= isize::MAX,
    ensures
        match out {
            Ok(file) => png_file(picture.width, picture.height, picture.pixels@) == Ok::<
                Seq<u8>,
                Seq<char>,
            >(file@),
            Err(e) => png_file(picture.width, picture.height, picture.pixels@) == Err::<
                Seq<u8>,
                Seq<char>,
            >(e@),
        },
{
    let raw: Vec<u8> = picture.pixels.iter().flat_map(|p| [p.r, p.g, p.b, p.a]).collect();
    let image = image::RgbaImage::from_raw(picture.width, picture.height, raw).unwrap();
    let mut out = std::io::Cursor::new(Vec::new());
    image.write_to(&mut out, image::ImageFormat::Png).map_err(|e| e.to_string())?;
    Ok(out.into_inner())
}

/// The PNG file of the picture in the size asked for.
pub fn encode_png(picture: &Picture, new_width: u32, new_height: u32) -> (out: Result<
    Vec<u8>,
    SourceError,
>)
    requires
        picture.wf(),
        can_shrink(*picture, new_width, new_height),
    ensures
        ({
            let small = box_filtered(
                picture.width,
                picture.height,
                picture.pixels@,
                new_width,
                new_height,
            );
            match out {
                Ok(file) => png_file(new_width, new_height, small) == Ok::<Seq<u8>, Seq<char>>(
                    file@,
                ),
                Err(e) => png_file(new_width, new_height, small) is Err && e.is_backend(
                    "png encode: "@ + png_file(new_width, new_height, small)->Err_0,
                ),
            }
        }),
{
    let pixels: Vec<Rgba> = shrink(picture, new_width, new_height);
    let small = Picture { width: new_width, height: new_height, pixels };
    match write_png(&small) {
        Ok(file) => Ok(file),
        Err(e) => Err(SourceError::Backend(join2("png encode: ", e.as_str()))),
    }
}

/// A turn by 90 degrees is clockwise: the pixel in row `py` of the captured
/// picture goes to the column that lies as far from the right as its row did
/// from the top, and its column becomes its row. The flip goes from left to
/// right.
pub proof fn quarter_turn_is_clockwise(w: int, h: int, px: int, py: int)
    requires
        0 <= px < w,
        0 <= py < h,
    ensures
        turned_from(Transform::Rotated90, w, h, h - 1 - py, px) == (px, py),
        turned_from(Transform::Flipped, w, h, w - 1 - px, py) == (px, py),
        turned_from(Transform::Normal, w, h, px, py) == (px, py),
{
}

/// Where a pixel stands before two turns, the second one of a picture that is
/// turned already.
pub open spec fn turned_twice(
    first: Transform,
    second: Transform,
    w: int,
    h: int,
    x: int,
    y: int,
) -> (int, int) {
    let (w2, h2) = if swaps_sides(first) {
        (h, w)
    } else {
        (w, h)
    };
    let p = turned_from(second, w2, h2, x, y);
    turned_from(first, w, h, p.0, p.1)
}

/// The larger turns are quarter turns one after another, and a flipped turn is
/// the flip and then the turn of the same angle.
pub proof fn turns_are_made_of_quarter_turns(w: int, h: int, x: int, y: int)
    ensures
        turned_from(Transform::Rotated180, w, h, x, y) == turned_twice(
            Transform::Rotated90,
            Transform::Rotated90,
            w,
            h,
            x,
            y,
        ),
        turned_from(Transform::Rotated270, w, h, x, y) == turned_twice(
            Transform::Rotated180,
            Transform::Rotated90,
            w,
            h,
            x,
            y,
        ),
        turned_from(Transform::Flipped90, w, h, x, y) == turned_twice(
            Transform::Flipped,
            Transform::Rotated90,
            w,
            h,
            x,
            y,
        ),
        turned_from(Transform::Flipped180, w, h, x, y) == turned_twice(
            Transform::Flipped,
            Transform::Rotated180,
            w,
            h,
            x,
            y,
        ),
        turned_from(Transform::Flipped270, w, h, x, y) == turned_twice(
            Transform::Flipped,
            Transform::Rotated270,
            w,
            h,
            x,
            y,
        ),
        forall|t: Transform| #[trigger]
            swaps_sides(t) == (t == Transform::Rotated90 || t == Transform::Rotated270 || t
                == Transform::Flipped90 || t == Transform::Flipped270),
{
}

/// Rows that came from the bottom are put in order before the turn: the upright
/// picture is the turn of the picture with its rows the other way round.
pub proof fn rows_are_put_in_order_first(t: Transform, w: int, h: int, x: int, y: int)
    ensures
        ({
            let p = turned_from(t, w, h, x, y);
            &&& upright_from(Orientation { transform: t, y_invert: false }, w, h, x, y) == p
            &&& upright_from(Orientation { transform: t, y_invert: true }, w, h, x, y) == (
                p.0,
                h - 1 - p.1,
            )
        }),
{
}

/// The number of a format that four characters name.
pub open spec fn code_of(a: char, b: char, c: char, d: char) -> int {
    a as int + 0x100 * (b as int) + 0x1_0000 * (c as int) + 0x100_0000 * (d as int)
}

/// The formats are told apart by the numbers that the display protocol gives
/// them: zero and one, and for the rest the codes of four characters.
pub proof fn formats_have_the_protocols_numbers(raw: u32)
    ensures
        shm_format_of(0) == Some(ShmFormat::Argb8888),
        shm_format_of(1) == Some(ShmFormat::Xrgb8888),
        raw == code_of('A', 'B', '2', '4') ==> shm_format_of(raw) == Some(ShmFormat::Abgr8888),
        raw == code_of('X', 'B', '2', '4') ==> shm_format_of(raw) == Some(ShmFormat::Xbgr8888),
        shm_format_of(raw) is Some ==> raw <= 1 || raw == code_of('A', 'B', '2', '4') || raw
            == code_of('X', 'B', '2', '4'),
{
}

/// A pixel is a number of 32 bits, least significant byte first. From the top,
/// its bytes are alpha, red, green and blue in the formats that are named so,
/// and alpha, blue, green and red in the others; where alpha is not used, the
/// pixel is opaque.
pub proof fn pixels_follow_their_format(info: BufferInfo, src: Seq<u8>, x: int, y: int)
    requires
        0 <= x < info.width,
        0 <= y < info.height,
        info.stride >= info.width * 4,
        src.len() >= info.stride * info.height,
    ensures
        ({
            let at = y * info.stride + x * 4;
            let word = le_value(src.subrange(at, at + 4));
            let p = captured_pixel(info, src, x, y);
            let low = word % 0x100;
            let second = word / 0x100 % 0x100;
            let third = word / 0x1_0000 % 0x100;
            let high = word / 0x100_0000;
            &&& p.g == second
            &&& shm_format_of(info.format) == Some(ShmFormat::Argb8888) ==> p.r == third && p.b
                == low && p.a == high
            &&& shm_format_of(info.format) == Some(ShmFormat::Xrgb8888) ==> p.r == third && p.b
                == low && p.a == 255
            &&& shm_format_of(info.format) == Some(ShmFormat::Abgr8888) ==> p.b == third && p.r
                == low && p.a == high
            &&& shm_format_of(info.format) == Some(ShmFormat::Xbgr8888) ==> p.b == third && p.r
                == low && p.a == 255
        }),
{
    let at = y * info.stride + x * 4;
    assert(0 <= at && at + 4 <= info.stride * info.height) by (nonlinear_arith)
        requires
            0 <= y <= info.height - 1,
            0 <= x <= info.width - 1,
            info.stride >= info.width * 4,
            at == y * info.stride + x * 4,
    ;
    let four = src.subrange(at, at + 4);
    assert(four =~= seq![src[at], src[at + 1], src[at + 2], src[at + 3]]);
    lemma_word_of_four(src[at], src[at + 1], src[at + 2], src[at + 3]);
}

proof fn lemma_word_of_four(a: u8, b: u8, c: u8, d: u8)
    ensures
        ({
            let word = le_value(seq![a, b, c, d]);
            &&& word == a + 0x100 * b + 0x1_0000 * c + 0x100_0000 * d
            &&& word % 0x100 == a
            &&& word / 0x100 % 0x100 == b
            &&& word / 0x1_0000 % 0x100 == c
            &&& word / 0x100_0000 == d
        }),
{
    let s = seq![a, b, c, d];
    assert(s.skip(1) =~= seq![b, c, d]);
    assert(s.skip(1).skip(1) =~= seq![c, d]);
    assert(s.skip(1).skip(1).skip(1) =~= seq![d]);
    assert(s.skip(1).skip(1).skip(1).skip(1) =~= Seq::<u8>::empty());
    reveal_with_fuel(le_value, 5);
}

/// What the compositor tells is kept: the size with rows of packed pixels, the
/// format, that all was told, and how the frame came out, each without a change
/// to the rest.
pub proof fn what_is_told_is_kept(c: WindowCapture, width: u32, height: u32, format: u32)
    requires
        width * 4 <= u32::MAX,
    ensures
        ({
            let sized = after_event(c, CaptureEvent::BufferSize { width, height });
            let formed = after_event(c, CaptureEvent::ShmFormat { format });
            &&& sized.buffer matches Some(b) && b.width == width && b.height == height && b.stride
                == 4 * width && (c.buffer matches Some(was) ==> b.format == was.format)
            &&& formed.buffer matches Some(b) && b.format == format && (c.buffer matches Some(was)
                ==> b.width == was.width && b.height == was.height && b.stride == was.stride)
            &&& sized.formats_done == c.formats_done && sized.status == c.status
            &&& formed.formats_done == c.formats_done && formed.status == c.status
            &&& after_event(c, CaptureEvent::Done) == (WindowCapture { formats_done: true, ..c })
            &&& after_event(c, CaptureEvent::FrameReady).status == FrameStatus::Ready
            &&& after_event(c, CaptureEvent::FrameFailed).status == FrameStatus::Failed
            &&& after_event(c, CaptureEvent::Stopped).status == FrameStatus::Failed
            &&& after_event(c, CaptureEvent::Stopped).formats_done
            &&& after_event(c, CaptureEvent::FrameReady).buffer == c.buffer
        }),
{
}

} // verus!
