//! What happens to each video buffer that the media server hands over.

use vstd::prelude::*;

use crate::capture::format::{
    bytes_per_pixel, cpu_readable, negotiated_of, pixel_bytes, pixels_of, NegotiatedFormat,
    VideoInfo,
};
use crate::error::FerricastError;
use crate::media::{PixelFormat, RawFrame};
use crate::octets::copy_range;

verus! {

/// The memory that a buffer lies in.
#[derive(Clone, Copy, Debug, PartialEq, Eq, Structural)]
pub enum DataType {
    MemFd,
    MemPtr,
    DmaBuf,
    Other,
}

/// The first plane of a buffer.
#[derive(Clone, Copy, Debug, PartialEq, Eq, Structural)]
pub struct PlaneInfo {
    pub data_type: DataType,
    pub chunk_size: u32,
    pub chunk_offset: u32,
    pub stride: u32,
    pub fd: i64,
    pub maxsize: u32,
}

/// What to do with a buffer.
#[derive(Clone, Copy, Debug, PartialEq, Eq, Structural)]
pub enum FramePlan {
    /// No format was agreed on yet: let all buffers go.
    WaitForFormat,
    /// The buffer has no plane.
    NoPlane,
    /// The buffer holds nothing yet.
    Empty,
    /// Copy `size` bytes from `offset` on out of the mapped memory.
    ReadMapped { stride: u32, offset: u32, size: usize },
    /// Map the shared buffer and copy `size` bytes from `offset` on.
    MapAndRead { stride: u32, offset: u32, size: usize },
    /// Have the graphics card read the shared buffer.
    Import { stride: u32, offset: u32, modifier: u64 },
    /// Only a graphics card could read the buffer, and none is there.
    NoImporter,
    /// The shared buffer has no valid descriptor.
    BadDescriptor,
    /// The shared buffer has no size.
    NoSize,
    /// The memory is of a kind that was not asked for.
    UnexpectedType,
}

/// The product, or the largest number where it does not fit.
pub open spec fn saturating(product: int, max: int) -> int {
    if product > max {
        max
    } else {
        product
    }
}

fn sat_mul_u32(a: u32, b: u32) -> (p: u32)
    ensures
        p == saturating(a * b, u32::MAX as int),
{
    match a.checked_mul(b) {
        Some(p) => p,
        None => u32::MAX,
    }
}

fn sat_mul_usize(a: usize, b: usize) -> (p: usize)
    ensures
        p == saturating(a * b, usize::MAX as int),
{
    match a.checked_mul(b) {
        Some(p) => p,
        None => usize::MAX,
    }
}

/// The bytes of a row: those that the plane names, or those of packed pixels.
pub open spec fn row_bytes(neg: NegotiatedFormat, stride: u32) -> u32 {
    if stride == 0 {
        saturating(neg.width * pixel_bytes(neg.pixel_format), u32::MAX as int) as u32
    } else {
        stride
    }
}

/// The bytes of all rows.
pub open spec fn plane_bytes(neg: NegotiatedFormat, stride: u32) -> usize {
    saturating(row_bytes(neg, stride) * neg.height, usize::MAX as int) as usize
}

/// Whether a descriptor is negative once it is cut to 32 bits.
pub open spec fn cut_below_zero(fd: i64) -> bool {
    fd & 0x8000_0000 != 0
}

/// What to do with a buffer whose first plane is `plane`. A descriptor that is
/// mapped is cut to 32 bits before it is looked at.
pub open spec fn planned(
    negotiated: Option<NegotiatedFormat>,
    importer: bool,
    plane: Option<PlaneInfo>,
) -> FramePlan {
    match (negotiated, plane) {
        (None, _) => FramePlan::WaitForFormat,
        (Some(_), None) => FramePlan::NoPlane,
        (Some(neg), Some(p)) => {
            let stride = row_bytes(neg, p.stride);
            let size = plane_bytes(neg, p.stride);
            if p.chunk_size == 0 {
                FramePlan::Empty
            } else {
                match p.data_type {
                    DataType::MemFd | DataType::MemPtr => FramePlan::ReadMapped {
                        stride,
                        offset: p.chunk_offset,
                        size,
                    },
                    DataType::DmaBuf => if cpu_readable(neg.modifier) {
                        if cut_below_zero(p.fd) {
                            FramePlan::BadDescriptor
                        } else if p.maxsize == 0 {
                            FramePlan::NoSize
                        } else {
                            FramePlan::MapAndRead { stride, offset: p.chunk_offset, size }
                        }
                    } else if !importer {
                        FramePlan::NoImporter
                    } else if p.fd < 0 {
                        FramePlan::BadDescriptor
                    } else {
                        FramePlan::Import {
                            stride,
                            offset: p.chunk_offset,
                            modifier: neg.modifier->0,
                        }
                    },
                    DataType::Other => FramePlan::UnexpectedType,
                }
            }
        },
    }
}

/// What to do with a buffer whose first plane is `plane`.
pub fn plan_frame(negotiated: &Option<NegotiatedFormat>, importer: bool, plane: &Option<
    PlaneInfo,
>) -> (plan: FramePlan)
    ensures
        plan == planned(*negotiated, importer, *plane),
{
    let neg: NegotiatedFormat = match negotiated {
        None => {
            return FramePlan::WaitForFormat;
        },
        Some(n) => *n,
    };
    let p: PlaneInfo = match plane {
        None => {
            return FramePlan::NoPlane;
        },
        Some(p) => *p,
    };
    if p.chunk_size == 0 {
        return FramePlan::Empty;
    }
    let stride: u32 = if p.stride == 0 {
        sat_mul_u32(neg.width, bytes_per_pixel(neg.pixel_format))
    } else {
        p.stride
    };
    let size: usize = sat_mul_usize(stride as usize, neg.height as usize);
    match p.data_type {
        DataType::MemFd | DataType::MemPtr => FramePlan::ReadMapped {
            stride,
            offset: p.chunk_offset,
            size,
        },
        DataType::DmaBuf => {
            if neg.modifier_is_cpu_readable() {
                if p.fd & 0x8000_0000 != 0 {
                    FramePlan::BadDescriptor
                } else if p.maxsize == 0 {
                    FramePlan::NoSize
                } else {
                    FramePlan::MapAndRead { stride, offset: p.chunk_offset, size }
                }
            } else if !importer {
                FramePlan::NoImporter
            } else if p.fd < 0 {
                FramePlan::BadDescriptor
            } else {
                match neg.modifier {
                    Some(modifier) => FramePlan::Import {
                        stride,
                        offset: p.chunk_offset,
                        modifier,
                    },
                    None => FramePlan::UnexpectedType,
                }
            }
        },
        DataType::Other => FramePlan::UnexpectedType,
    }
}

/// The smaller of the two.
pub open spec fn min_int(a: int, b: int) -> int {
    if a < b {
        a
    } else {
        b
    }
}

/// The part of `len` mapped bytes that `size` bytes from `offset` on cover, if
/// it is not empty.
pub open spec fn window(len: int, offset: int, size: int) -> Option<(int, int)> {
    let start = min_int(offset, len);
    let end = min_int(start + size, len);
    if end <= start {
        None
    } else {
        Some((start, end))
    }
}

/// A copy of the `size` bytes from `offset` on, as far as they are mapped;
/// nothing where none of them is.
pub fn read_cpu_buffer(mapped: &[u8], chunk_offset: u32, plane_size: usize) -> (bytes: Option<
    Vec<u8>,
>)
    ensures
        match bytes {
            Some(b) => window(
                mapped@.len() as int,
                chunk_offset as int,
                plane_size as int,
            ) matches Some(w) && b@ == mapped@.subrange(w.0, w.1),
            None => window(mapped@.len() as int, chunk_offset as int, plane_size as int) is None,
        },
{
    let len: usize = mapped.len();
    let start: usize = if (chunk_offset as usize) < len {
        chunk_offset as usize
    } else {
        len
    };
    let end: usize = if plane_size < len - start {
        start + plane_size
    } else {
        len
    };
    if end <= start {
        return None;
    }
    Some(copy_range(mapped, start, end))
}

/// The frame of bytes that were copied out of a buffer.
pub fn cpu_frame(neg: &NegotiatedFormat, stride: u32, data: Vec<u8>, timestamp_us: u64) -> (frame:
    RawFrame)
    ensures
        frame == (RawFrame {
            width: neg.width,
            height: neg.height,
            stride,
            format: neg.pixel_format,
            data,
            timestamp_us,
        }),
{
    RawFrame {
        width: neg.width,
        height: neg.height,
        stride,
        format: neg.pixel_format,
        data,
        timestamp_us,
    }
}

/// Whether the images imported so far have to go for the new format.
pub open spec fn images_go(before: Option<NegotiatedFormat>, now: NegotiatedFormat) -> bool {
    match before {
        Some(prev) => prev.differs(now),
        None => true,
    }
}

/// Takes a proposal of the compositor as the agreed format. Says whether the
/// images imported so far have to go because the buffers look different now.
/// A proposal without a pixel format changes nothing.
pub fn accept_format(negotiated: &mut Option<NegotiatedFormat>, info: &VideoInfo) -> (out: Result<
    bool,
    FerricastError,
>)
    ensures
        match out {
            Ok(reset) => {
                &&& pixels_of(info.format) is Some
                &&& *final(negotiated) matches Some(n)
                &&& n == negotiated_of(*info)
                &&& reset == images_go(*old(negotiated), n)
            },
            Err(e) => pixels_of(info.format) is None && *final(negotiated) == *old(negotiated)
                && e.is_capture(
                "PipeWire negotiated unsupported video format: "@ + info.format_name@,
            ),
        },
{
    match NegotiatedFormat::from_video_info(info) {
        Err(e) => Err(e),
        Ok(n) => {
            let reset: bool = match negotiated {
                Some(prev) => prev.width != n.width || prev.height != n.height || prev.spa_format
                    != n.spa_format || prev.modifier != n.modifier,
                None => true,
            };
            *negotiated = Some(n);
            Ok(reset)
        },
    }
}

/// The same proposal twice in a row leaves the imported images in place.
pub proof fn same_format_keeps_images(n: NegotiatedFormat)
    ensures
        !n.differs(n),
{
}

/// What was learnt of a stream whose format was left open: zeros until the
/// first buffer came.
#[derive(Clone, Copy, Debug, PartialEq, Eq, Structural)]
pub struct GuessedFormat {
    pub width: u32,
    pub height: u32,
    pub format: u32,
}

/// The pixel format behind a format number of the media server.
pub open spec fn numbered_pixels(format: u32) -> Option<PixelFormat> {
    if format == 8 || format == 9 {
        Some(PixelFormat::Bgra)
    } else if format == 6 || format == 7 {
        Some(PixelFormat::Rgba)
    } else if format == 25 {
        Some(PixelFormat::Nv12)
    } else if format == 2 {
        Some(PixelFormat::I420)
    } else {
        None
    }
}

/// The pixel format behind a format number of the media server.
pub fn spa_format_to_pixel(format: u32) -> (pixels: Option<PixelFormat>)
    ensures
        pixels == numbered_pixels(format),
{
    match format {
        8 | 9 => Some(PixelFormat::Bgra),
        6 | 7 => Some(PixelFormat::Rgba),
        25 => Some(PixelFormat::Nv12),
        2 => Some(PixelFormat::I420),
        _ => None,
    }
}

/// The width of the frame: the one already known, else as many pixels of four
/// bytes as a row has, else that of full HD.
pub open spec fn guessed_width(guess: GuessedFormat, stride: u32) -> u32 {
    if guess.width > 0 {
        guess.width
    } else if stride > 0 {
        stride / 4
    } else {
        1920
    }
}

/// The height of the frame: the one already known, else as many rows as the
/// chunk holds, else that of full HD.
pub open spec fn guessed_height(guess: GuessedFormat, stride: u32, size: u32) -> u32 {
    if guess.height > 0 {
        guess.height
    } else if stride > 0 {
        size / stride
    } else {
        1080
    }
}

/// The pixel format: the one already known, else the most common one.
pub open spec fn guessed_pixels(format: u32) -> PixelFormat {
    if format == 6 || format == 7 {
        PixelFormat::Rgba
    } else if format == 25 {
        PixelFormat::Nv12
    } else if format == 2 {
        PixelFormat::I420
    } else {
        PixelFormat::Bgra
    }
}

impl GuessedFormat {
    /// The frame of a chunk of `size` bytes, as far as they are mapped. What
    /// the row length tells of the size of the picture is kept for later
    /// chunks. An empty chunk gives no frame.
    pub fn frame(&mut self, mapped: &[u8], size: u32, stride: u32, timestamp_us: u64) -> (frame:
        Option<RawFrame>)
        ensures
            match frame {
                None => size == 0 && *final(self) == *old(self),
                Some(f) => {
                    &&& size > 0
                    &&& f.width == guessed_width(*old(self), stride)
                    &&& f.height == guessed_height(*old(self), stride, size)
                    &&& f.stride == stride
                    &&& f.format == guessed_pixels(old(self).format)
                    &&& f.data@ == mapped@.take(min_int(size as int, mapped@.len() as int))
                    &&& f.timestamp_us == timestamp_us
                    &&& *final(self) == if stride > 0 {
                        GuessedFormat { width: f.width, height: f.height, ..*old(self) }
                    } else {
                        *old(self)
                    }
                },
            },
    {
        if size == 0 {
            return None;
        }
        let width: u32 = if self.width > 0 {
            self.width
        } else if stride > 0 {
            let w: u32 = stride / 4;
            self.width = w;
            w
        } else {
            1920
        };
        let height: u32 = if self.height > 0 {
            self.height
        } else if stride > 0 {
            let h: u32 = size / stride;
            self.height = h;
            h
        } else {
            1080
        };
        let format: PixelFormat = if self.format > 0 {
            match spa_format_to_pixel(self.format) {
                Some(p) => p,
                None => PixelFormat::Bgra,
            }
        } else {
            PixelFormat::Bgra
        };
        let take: usize = if (size as usize) <= mapped.len() {
            size as usize
        } else {
            mapped.len()
        };
        let data: Vec<u8> = copy_range(mapped, 0, take);
        assert(data@ =~= mapped@.take(take as int));
        Some(RawFrame { width, height, stride, format, data, timestamp_us })
    }

    /// A change of the stream's format: the size has to be learnt anew.
    pub fn forget_size(&mut self)
        ensures
            *final(self) == (GuessedFormat { width: 0, height: 0, ..*old(self) }),
    {
        self.width = 0;
        self.height = 0;
    }
}

/// A row is as long as the plane says, or as its packed pixels where the plane
/// says nothing; the plane has one for each line of the picture.
pub proof fn planes_have_a_row_for_each_line(neg: NegotiatedFormat, stride: u32)
    requires
        neg.pixel_format == PixelFormat::Bgra || neg.pixel_format == PixelFormat::Rgba,
        neg.width * 4 <= u32::MAX,
        row_bytes(neg, stride) * neg.height <= usize::MAX,
    ensures
        stride > 0 ==> row_bytes(neg, stride) == stride,
        row_bytes(neg, 0) == neg.width * 4,
        plane_bytes(neg, stride) == row_bytes(neg, stride) * neg.height,
{
}

/// What is done with a buffer: nothing before a format was agreed on or without
/// a plane or content. Plain memory is read where it is mapped. A shared buffer
/// that the processor can read is mapped and read, any other one goes to the
/// card, where there is one; neither works without a descriptor. All of the
/// picture is read, from the offset on.
pub proof fn buffers_go_where_they_can_be_read(
    neg: NegotiatedFormat,
    importer: bool,
    p: PlaneInfo,
)
    requires
        p.chunk_size > 0,
    ensures
        planned(None, importer, Some(p)) is WaitForFormat,
        planned(Some(neg), importer, None) is NoPlane,
        planned(Some(neg), importer, Some(PlaneInfo { chunk_size: 0, ..p })) is Empty,
        ({
            let plan = planned(Some(neg), importer, Some(p));
            let stride = row_bytes(neg, p.stride);
            let size = plane_bytes(neg, p.stride);
            let readable = neg.modifier is None || neg.modifier == Some(0u64) || neg.modifier
                == Some(0x00ff_ffff_ffff_ffffu64);
            &&& p.data_type == DataType::MemFd || p.data_type == DataType::MemPtr ==> plan == (
            FramePlan::ReadMapped { stride, offset: p.chunk_offset, size })
            &&& p.data_type == DataType::Other ==> plan is UnexpectedType
            &&& p.data_type == DataType::DmaBuf && readable && 0 <= p.fd <= 0x7fff_ffff && p.maxsize
                > 0 ==> plan == (FramePlan::MapAndRead { stride, offset: p.chunk_offset, size })
            &&& p.data_type == DataType::DmaBuf && readable && p.fd == -1 ==> plan is BadDescriptor
            &&& p.data_type == DataType::DmaBuf && readable && 0 <= p.fd <= 0x7fff_ffff && p.maxsize
                == 0 ==> plan is NoSize
            &&& p.data_type == DataType::DmaBuf && !readable && !importer ==> plan is NoImporter
            &&& p.data_type == DataType::DmaBuf && !readable && importer && p.fd < 0
                ==> plan is BadDescriptor
            &&& p.data_type == DataType::DmaBuf && !readable && importer && p.fd >= 0 ==> plan == (
            FramePlan::Import { stride, offset: p.chunk_offset, modifier: neg.modifier->0 })
        }),
{
    let fd = p.fd;
    assert(0 <= fd <= 0x7fff_ffff ==> fd & 0x8000_0000 == 0) by (bit_vector);
    assert(-1i64 & 0x8000_0000 != 0) by (bit_vector);
}

/// The part that is read starts at the offset, holds no more than was asked for
/// and nothing behind the mapped memory, and all of what was asked for where it
/// is mapped.
pub proof fn read_parts_stay_within_the_memory(len: int, offset: int, size: int)
    requires
        0 <= len,
        0 <= offset,
        0 <= size,
    ensures
        match window(len, offset, size) {
            Some(w) => w.0 == offset && w.0 < w.1 <= len && w.1 - w.0 <= size && (offset + size
                <= len ==> w.1 == offset + size) && (offset + size > len ==> w.1 == len),
            None => size == 0 || offset >= len,
        },
{
}

/// A stream whose format was left open: what is known stays, rows of four bytes
/// a pixel tell the width and the number of rows the height, and full HD is
/// taken where nothing tells.
pub proof fn sizes_are_learnt_from_rows(guess: GuessedFormat, stride: u32, size: u32, rows: u32)
    ensures
        guess.width > 0 ==> guessed_width(guess, stride) == guess.width,
        guess.height > 0 ==> guessed_height(guess, stride, size) == guess.height,
        guess.width == 0 && stride > 0 ==> guessed_width(guess, stride) * 4 <= stride < (
        guessed_width(guess, stride) + 1) * 4,
        guess.height == 0 && stride > 0 && size == rows * stride ==> guessed_height(
            guess,
            stride,
            size,
        ) == rows,
        guess.width == 0 ==> guessed_width(guess, 0) == 1920,
        guess.height == 0 ==> guessed_height(guess, 0, size) == 1080,
        guessed_pixels(6) == PixelFormat::Rgba && guessed_pixels(7) == PixelFormat::Rgba,
        guessed_pixels(8) == PixelFormat::Bgra && guessed_pixels(9) == PixelFormat::Bgra,
        guessed_pixels(25) == PixelFormat::Nv12,
        guessed_pixels(2) == PixelFormat::I420,
        guessed_pixels(0) == PixelFormat::Bgra,
{
    if stride > 0 && size == rows * stride {
        assert(size as int / stride as int == rows) by (nonlinear_arith)
            requires
                stride > 0,
                size == rows * stride,
        ;
    }
}

/// Imported images go with the first format, and with one whose buffers have
/// another size, format or layout; a mere change of the rate leaves them.
pub proof fn images_go_with_other_buffers(before: NegotiatedFormat, now: NegotiatedFormat)
    ensures
        images_go(None, now),
        before.width != now.width ==> images_go(Some(before), now),
        before.height != now.height ==> images_go(Some(before), now),
        before.spa_format != now.spa_format ==> images_go(Some(before), now),
        before.modifier != now.modifier ==> images_go(Some(before), now),
        !images_go(Some(before), NegotiatedFormat {
            framerate_num: now.framerate_num,
            framerate_denom: now.framerate_denom,
            ..before
        }),
{
}

/// The format numbers are those of the media server, with and without an alpha
/// channel; no other number has a pixel format.
pub proof fn format_numbers_are_the_media_servers(format: u32)
    ensures
        numbered_pixels(2) == Some(PixelFormat::I420),
        numbered_pixels(6) == Some(PixelFormat::Rgba),
        numbered_pixels(7) == Some(PixelFormat::Rgba),
        numbered_pixels(8) == Some(PixelFormat::Bgra),
        numbered_pixels(9) == Some(PixelFormat::Bgra),
        numbered_pixels(25) == Some(PixelFormat::Nv12),
        numbered_pixels(format) is Some ==> format == 2 || 6 <= format <= 9 || format == 25,
{
}

} // verus!
