//! Capture straight from the compositor: which buffers it accepts, and which
//! transport a frame takes.

use std::collections::HashMap;

use vstd::prelude::*;
use vstd::std_specs::hash::*;
use vstd::string::*;

use crate::capture::format::{copy_modifiers, DRM_FORMAT_MOD_INVALID, DRM_FORMAT_MOD_LINEAR};
use crate::capture::thumb::FrameStatus;
use crate::error::FerricastError;
use crate::media::PixelFormat;
use crate::octets::{le_value, lemma_le_value_bound, lemma_pow256_small, read_le};
use crate::text::{
    debug_spelling, debug_text, decimal, hex_fixed, join2, push_decimal, push_hex_fixed, str_eq,
};

verus! {

/// What a user picked to be captured.
pub enum CaptureSource {
    /// A whole monitor, by name where one was picked.
    FullScreen { monitor: Option<String> },
    /// One window, where one was picked.
    Window { identifier: Option<WindowIdentifier> },
}

/// How a window was picked.
#[derive(Debug, PartialEq, Eq)]
pub enum WindowIdentifier {
    Id(u64),
    Title(String),
}

/// The monitor to capture. A monitor has to be named, and windows cannot be
/// captured this way.
pub fn direct_output(source: CaptureSource) -> (out: Result<String, FerricastError>)
    ensures
        match out {
            Ok(name) => source == (CaptureSource::FullScreen { monitor: Some(name) }),
            Err(e) => match source {
                CaptureSource::FullScreen { monitor } => monitor is None && e.is_capture(
                    "wayland-direct: monitor id required (we don't pop a portal picker)"@,
                ),
                CaptureSource::Window { .. } => e.is_capture(
                    "wayland-direct: window capture not yet implemented; use monitor capture or fall back to PipeWire"@,
                ),
            },
        },
{
    match source {
        CaptureSource::FullScreen { monitor: Some(name) } => Ok(name),
        CaptureSource::FullScreen { monitor: None } => Err(
            FerricastError::Capture(
                "wayland-direct: monitor id required (we don't pop a portal picker)".to_owned(),
            ),
        ),
        CaptureSource::Window { identifier: _ } => Err(
            FerricastError::Capture(
                "wayland-direct: window capture not yet implemented; use monitor capture or fall back to PipeWire".to_owned(),
            ),
        ),
    }
}

/// The microseconds between two frames at a rate of at least one.
pub open spec fn period_us(fps: u32) -> int {
    1_000_000int / (if fps == 0 {
        1int
    } else {
        fps as int
    })
}

/// The microseconds between two frames at a rate of at least one.
pub fn frame_period_us(fps: u32) -> (us: u64)
    ensures
        us == period_us(fps),
{
    if fps == 0 {
        1_000_000
    } else {
        1_000_000 / fps as u64
    }
}

/// The device file of a render node.
pub open spec fn render_node_path(n: nat) -> Seq<char> {
    "/dev/dri/renderD"@ + decimal(n)
}

/// The device files of render nodes, in numerical order; the caller keeps
/// those that are there.
pub fn render_node_paths() -> (paths: Vec<String>)
    ensures
        paths@.len() == 65,
        forall|i: int| 0 <= i < 65 ==> (#[trigger] paths@[i])@ == render_node_path((128 + i) as nat),
{
    let mut paths: Vec<String> = Vec::new();
    let mut n: u64 = 128;
    while n <= 192
        invariant
            128 <= n <= 193,
            paths@.len() == n - 128,
            forall|i: int|
                0 <= i < paths@.len() ==> (#[trigger] paths@[i])@ == render_node_path(
                    (128 + i) as nat,
                ),
        decreases 193 - n,
    {
        let mut path: String = "/dev/dri/renderD".to_owned();
        push_decimal(&mut path, n);
        paths.push(path);
        n = n + 1;
    }
    paths
}

/// A render node that is there: its device number where that is known, and
/// whether it can be opened.
#[derive(Clone, Copy, Debug, PartialEq, Eq, Structural)]
pub struct RenderNode {
    pub device: Option<u64>,
    pub opens: bool,
}

/// Whether the node is the one that the compositor renders on, and opens.
pub open spec fn node_matches(node: RenderNode, target: u64) -> bool {
    node.opens && node.device == Some(target)
}

/// The node to allocate on: the first that the compositor renders on, else the
/// first that opens at all.
pub fn pick_render_node(nodes: &[RenderNode], main_device: Option<u64>) -> (out: Result<
    usize,
    FerricastError,
>)
    ensures
        match out {
            Ok(i) => {
                &&& i < nodes@.len()
                &&& nodes@[i as int].opens
                &&& if main_device is Some && exists|j: int|
                    0 <= j < nodes@.len() && node_matches(#[trigger] nodes@[j], main_device->0) {
                    node_matches(nodes@[i as int], main_device->0) && forall|j: int|
                        0 <= j < i ==> !node_matches(#[trigger] nodes@[j], main_device->0)
                } else {
                    forall|j: int| 0 <= j < i ==> !(#[trigger] nodes@[j]).opens
                }
            },
            Err(e) => (forall|j: int| 0 <= j < nodes@.len() ==> !(#[trigger] nodes@[j]).opens)
                && e.is_capture(
                "wayland-direct: no usable DRM render node for DMA-BUF allocation"@,
            ),
        },
{
    match main_device {
        Some(target) => {
            let mut i: usize = 0;
            while i < nodes.len()
                invariant
                    main_device == Some(target),
                    i <= nodes@.len(),
                    forall|j: int| 0 <= j < i ==> !node_matches(#[trigger] nodes@[j], target),
                decreases nodes@.len() - i,
            {
                let node: RenderNode = nodes[i];
                if node.opens {
                    match node.device {
                        Some(d) => {
                            if d == target {
                                assert(node_matches(nodes@[i as int], target));
                                return Ok(i);
                            }
                        },
                        None => {},
                    }
                }
                i = i + 1;
            }
        },
        None => {},
    }
    let mut i: usize = 0;
    while i < nodes.len()
        invariant
            i <= nodes@.len(),
            main_device is Some ==> forall|j: int|
                0 <= j < nodes@.len() ==> !node_matches(#[trigger] nodes@[j], main_device->0),
            forall|j: int| 0 <= j < i ==> !(#[trigger] nodes@[j]).opens,
        decreases nodes@.len() - i,
    {
        if nodes[i].opens {
            return Ok(i);
        }
        i = i + 1;
    }
    Err(
        FerricastError::Capture(
            "wayland-direct: no usable DRM render node for DMA-BUF allocation".to_owned(),
        ),
    )
}

/// The modifiers to try in order: those that the compositor accepts with the
/// linear one swapped to the front, or a fixed pair where it named none.
pub open spec fn is_candidate_list(accepted: Seq<u64>, wanted: Seq<u64>) -> bool {
    if accepted.len() == 0 {
        wanted == seq![DRM_FORMAT_MOD_LINEAR, DRM_FORMAT_MOD_INVALID]
    } else if accepted.contains(DRM_FORMAT_MOD_LINEAR) {
        exists|p: int|
            0 <= p < accepted.len() && accepted[p] == DRM_FORMAT_MOD_LINEAR && (forall|j: int|
                0 <= j < p ==> accepted[j] != DRM_FORMAT_MOD_LINEAR) && wanted
                == #[trigger] accepted.update(p, accepted[0]).update(0, DRM_FORMAT_MOD_LINEAR)
    } else {
        wanted == accepted
    }
}

/// The modifiers to try in order.
pub fn modifier_candidates(accepted: &Vec<u64>) -> (wanted: Vec<u64>)
    ensures
        is_candidate_list(accepted@, wanted@),
{
    if accepted.len() == 0 {
        let wanted: Vec<u64> = vec![DRM_FORMAT_MOD_LINEAR, DRM_FORMAT_MOD_INVALID];
        assert(wanted@ =~= seq![DRM_FORMAT_MOD_LINEAR, DRM_FORMAT_MOD_INVALID]);
        return wanted;
    }
    let mut wanted: Vec<u64> = copy_modifiers(accepted);
    let mut i: usize = 0;
    while i < wanted.len()
        invariant
            wanted@ == accepted@,
            i <= wanted@.len(),
            accepted@.len() > 0,
            forall|j: int| 0 <= j < i ==> accepted@[j] != DRM_FORMAT_MOD_LINEAR,
        decreases wanted@.len() - i,
    {
        if wanted[i] == DRM_FORMAT_MOD_LINEAR {
            let front: u64 = wanted[0];
            wanted.set(i, front);
            wanted.set(0, DRM_FORMAT_MOD_LINEAR);
            assert(wanted@ == accepted@.update(i as int, accepted@[0]).update(
                0,
                DRM_FORMAT_MOD_LINEAR,
            ));
            assert(accepted@.contains(DRM_FORMAT_MOD_LINEAR));
            return wanted;
        }
        i = i + 1;
    }
    wanted
}

/// The linear layout is tried first wherever the compositor accepts it or
/// names nothing.
pub proof fn linear_is_tried_first(accepted: Seq<u64>, wanted: Seq<u64>)
    requires
        is_candidate_list(accepted, wanted),
        accepted.len() == 0 || accepted.contains(DRM_FORMAT_MOD_LINEAR),
    ensures
        wanted.len() > 0,
        wanted[0] == DRM_FORMAT_MOD_LINEAR,
{
}

/// A modifier as the two halves that the protocol takes.
pub fn modifier_halves(modifier: u64) -> (halves: (u32, u32))
    ensures
        halves.0 as int * 0x1_0000_0000 + halves.1 as int == modifier,
{
    ((modifier / 0x1_0000_0000) as u32, (modifier % 0x1_0000_0000) as u32)
}

/// How to allocate next.
#[derive(Clone, Copy, Debug, PartialEq, Eq, Structural)]
pub enum AllocAttempt {
    /// With the layout.
    Modifier(u64),
    /// With the flag for a linear layout, for drivers that know no other way.
    LinearFlag,
    /// Not at all: nothing worked.
    GiveUp,
}

/// How to allocate after `failed` attempts: with each layout in order, then
/// with the flag.
pub fn alloc_attempt(wanted: &Vec<u64>, failed: usize) -> (attempt: AllocAttempt)
    ensures
        attempt == if failed < wanted@.len() {
            AllocAttempt::Modifier(wanted@[failed as int])
        } else if failed == wanted@.len() {
            AllocAttempt::LinearFlag
        } else {
            AllocAttempt::GiveUp
        },
{
    if failed < wanted.len() {
        AllocAttempt::Modifier(wanted[failed])
    } else if failed == wanted.len() {
        AllocAttempt::LinearFlag
    } else {
        AllocAttempt::GiveUp
    }
}

/// The label of a format code, where the code is known.
pub uninterp spec fn fourcc_shown(code: u32) -> Option<Seq<char>>;

/// `DrmFourcc::try_from` of drm-fourcc: the label of the format with the code,
/// if the crate lists one.
#[verifier::external_body]
fn fourcc_label(code: u32) -> (label: Option<String>)
    ensures
        match label {
            Some(s) => fourcc_shown(code) == Some(s@),
            None => fourcc_shown(code) is None,
        },
{
    drm_fourcc::DrmFourcc::try_from(code).ok().map(|f| format!("{:?}", f))
}

/// The label of the format of an offered buffer; unknown formats are refused.
pub fn offered_fourcc(offer: &DmabufOffer) -> (out: Result<String, FerricastError>)
    ensures
        match out {
            Ok(label) => fourcc_shown(offer.format) == Some(label@),
            Err(e) => fourcc_shown(offer.format) is None && e.is_capture(
                "unknown DRM fourcc 0x"@ + hex_fixed(offer.format as nat, 8),
            ),
        },
{
    match fourcc_label(offer.format) {
        Some(label) => Ok(label),
        None => {
            let mut text: String = "unknown DRM fourcc 0x".to_owned();
            push_hex_fixed(&mut text, offer.format as u64, 8);
            Err(FerricastError::Capture(text))
        },
    }
}

/// Why no buffer could be allocated: the last cause, where one was given.
pub fn alloc_failed(label: &str, width: u32, height: u32, cause: Option<&str>) -> (e: FerricastError)
    ensures
        e.is_capture(
            "gbm alloc (fourcc="@ + label@ + ", "@ + decimal(width as nat) + "x"@ + decimal(
                height as nat,
            ) + "): "@ + match cause {
                Some(c) => c@,
                None => "no modifier worked"@,
            },
        ),
{
    let mut text: String = "gbm alloc (fourcc=".to_owned();
    text.append(label);
    text.append(", ");
    push_decimal(&mut text, width as u64);
    text.append("x");
    push_decimal(&mut text, height as u64);
    text.append("): ");
    match cause {
        Some(c) => text.append(c),
        None => text.append("no modifier worked"),
    }
    FerricastError::Capture(text)
}

/// An allocated buffer that the compositor writes into.
#[derive(Clone, Copy, Debug, PartialEq, Eq, Structural)]
pub struct AllocatedBuffer {
    pub width: u32,
    pub height: u32,
    pub stride: u32,
    pub modifier: u64,
    pub fourcc: u32,
}

/// The code of the format with blue in the first byte.
pub const FOURCC_ARGB8888: u32 = 0x3432_5241;

/// The code of the format with red in the first byte.
pub const FOURCC_ABGR8888: u32 = 0x3432_4241;

impl AllocatedBuffer {
    /// The pixel format of the buffer.
    pub fn pixel_format(&self) -> (format: PixelFormat)
        ensures
            format == if self.fourcc == FOURCC_ABGR8888 {
                PixelFormat::Rgba
            } else {
                PixelFormat::Bgra
            },
    {
        if self.fourcc == FOURCC_ABGR8888 {
            PixelFormat::Rgba
        } else {
            PixelFormat::Bgra
        }
    }

    /// The bytes of the buffer, or the largest number where they do not fit.
    pub fn plane_size(&self) -> (size: u32)
        ensures
            size == plane_bytes(self.stride, self.height),
    {
        let stride: u64 = self.stride as u64;
        let height: u64 = self.height as u64;
        assert(stride * height <= 0xffff_ffff * 0xffff_ffff) by (nonlinear_arith)
            requires
                stride <= 0xffff_ffff,
                height <= 0xffff_ffff,
        ;
        let size: u64 = stride * height;
        if size > 0xffff_ffff {
            u32::MAX
        } else {
            size as u32
        }
    }
}

/// How often shared buffers may fail in a row.
pub const DMABUF_FAILURE_THRESHOLD: u32 = 3;

/// Whether shared buffers still work.
#[derive(Clone, Copy, Debug, PartialEq, Eq, Structural)]
pub struct DmabufHealth {
    pub disabled: bool,
    pub failures: u32,
}

impl DmabufHealth {
    /// Shared buffers have not failed.
    pub fn new() -> (health: Self)
        ensures
            health == (DmabufHealth { disabled: false, failures: 0 }),
    {
        DmabufHealth { disabled: false, failures: 0 }
    }

    /// The health after a frame: a failure over shared memory is counted, the
    /// third in a row gives shared buffers up for good; a success starts the
    /// count anew; frames of plain memory count for nothing.
    pub open spec fn after_frame(self, attempted: bool, ready: bool) -> DmabufHealth {
        if !attempted {
            self
        } else if ready {
            DmabufHealth { failures: 0, ..self }
        } else {
            let failures = if self.failures == u32::MAX {
                u32::MAX
            } else {
                (self.failures + 1) as u32
            };
            DmabufHealth {
                disabled: self.disabled || failures >= DMABUF_FAILURE_THRESHOLD,
                failures,
            }
        }
    }

    /// Takes note of a frame.
    pub fn frame_done(&mut self, attempted: bool, ready: bool)
        ensures
            *final(self) == old(self).after_frame(attempted, ready),
    {
        if attempted {
            if ready {
                self.failures = 0;
            } else {
                if self.failures < u32::MAX {
                    self.failures = self.failures + 1;
                }
                if self.failures >= DMABUF_FAILURE_THRESHOLD {
                    self.disabled = true;
                }
            }
        }
    }
}

/// Shared buffers that were given up are never used again.
pub proof fn disabled_stays_disabled(health: DmabufHealth, attempted: bool, ready: bool)
    requires
        health.disabled,
    ensures
        health.after_frame(attempted, ready).disabled,
{
}

/// Three failures in a row give shared buffers up, and fewer do not.
pub proof fn three_failures_disable(health: DmabufHealth)
    requires
        !health.disabled,
        health.failures == 0,
    ensures
        !health.after_frame(true, false).disabled,
        !health.after_frame(true, false).after_frame(true, false).disabled,
        health.after_frame(true, false).after_frame(true, false).after_frame(true, false).disabled,
{
}

/// A shared buffer that the compositor offers.
#[derive(Clone, Copy, Debug, PartialEq, Eq, Structural)]
pub struct DmabufOffer {
    pub format: u32,
    pub width: u32,
    pub height: u32,
}

/// Plain memory that the compositor offers.
#[derive(Clone, Copy, Debug, PartialEq, Eq, Structural)]
pub struct ShmOffer {
    pub format: u32,
    pub stride: u32,
}

/// What the compositor said of a frame.
#[derive(Clone, Copy, Debug, PartialEq, Eq, Structural)]
pub struct FrameInfo {
    pub width: u32,
    pub height: u32,
    pub dmabuf: Option<DmabufOffer>,
    pub shm: Option<ShmOffer>,
}

/// Takes an offer of plain memory: the size is that of the last offer, an
/// offer of a shared buffer is kept.
pub fn offer_shm(info: &mut Option<FrameInfo>, format: u32, width: u32, height: u32, stride: u32)
    ensures
        *final(info) == Some(
            FrameInfo {
                width,
                height,
                dmabuf: match *old(info) {
                    Some(i) => i.dmabuf,
                    None => None,
                },
                shm: Some(ShmOffer { format, stride }),
            },
        ),
{
    let dmabuf: Option<DmabufOffer> = match info {
        Some(i) => i.dmabuf,
        None => None,
    };
    *info = Some(FrameInfo { width, height, dmabuf, shm: Some(ShmOffer { format, stride }) });
}

/// Takes an offer of a shared buffer: the size is that of the last offer, an
/// offer of plain memory is kept.
pub fn offer_dmabuf(info: &mut Option<FrameInfo>, format: u32, width: u32, height: u32)
    ensures
        *final(info) == Some(
            FrameInfo {
                width,
                height,
                dmabuf: Some(DmabufOffer { format, width, height }),
                shm: match *old(info) {
                    Some(i) => i.shm,
                    None => None,
                },
            },
        ),
{
    let shm: Option<ShmOffer> = match info {
        Some(i) => i.shm,
        None => None,
    };
    *info = Some(
        FrameInfo { width, height, dmabuf: Some(DmabufOffer { format, width, height }), shm },
    );
}

/// The shared buffer to use for a frame: only where one was offered, can be
/// allocated and wrapped, and shared buffers were not given up.
pub fn dmabuf_for_frame(
    info: &FrameInfo,
    allocator: bool,
    protocol: bool,
    health: &DmabufHealth,
) -> (offer: Option<DmabufOffer>)
    ensures
        offer == (if allocator && protocol && !health.disabled {
            info.dmabuf
        } else {
            None
        }),
{
    if allocator && protocol && !health.disabled {
        info.dmabuf
    } else {
        None
    }
}

/// A pixel layout of plain memory.
#[derive(Clone, Copy, Debug, PartialEq, Eq, Structural)]
pub enum ShmFormat {
    Argb8888,
    Xrgb8888,
    Abgr8888,
    Xbgr8888,
}

/// The layout behind a format number.
pub open spec fn shm_format_of(raw: u32) -> Option<ShmFormat> {
    if raw == 0 {
        Some(ShmFormat::Argb8888)
    } else if raw == 1 {
        Some(ShmFormat::Xrgb8888)
    } else if raw == 0x34324241 {
        Some(ShmFormat::Abgr8888)
    } else if raw == 0x34324258 {
        Some(ShmFormat::Xbgr8888)
    } else {
        None
    }
}

/// The layout behind a format number, if it is one of the four.
pub fn shm_format(raw: u32) -> (format: Option<ShmFormat>)
    ensures
        format == shm_format_of(raw),
{
    match raw {
        0 => Some(ShmFormat::Argb8888),
        1 => Some(ShmFormat::Xrgb8888),
        0x34324241 => Some(ShmFormat::Abgr8888),
        0x34324258 => Some(ShmFormat::Xbgr8888),
        _ => None,
    }
}

/// The layout behind a format number, or the error that names it.
pub fn wl_shm_format(raw: u32) -> (out: Result<ShmFormat, FerricastError>)
    ensures
        match out {
            Ok(f) => shm_format_of(raw) == Some(f),
            Err(e) => shm_format_of(raw) is None && e.is_capture(
                "unsupported wl_shm format 0x"@ + hex_fixed(raw as nat, 8),
            ),
        },
{
    match shm_format(raw) {
        Some(f) => Ok(f),
        None => {
            let mut text: String = "unsupported wl_shm format 0x".to_owned();
            push_hex_fixed(&mut text, raw as u64, 8);
            Err(FerricastError::Capture(text))
        },
    }
}

/// The bytes of so many rows, or the largest number where they do not fit.
pub open spec fn plane_bytes(stride: u32, height: u32) -> int {
    if stride * height > u32::MAX {
        u32::MAX as int
    } else {
        stride * height
    }
}

/// The pixel format of a format number.
pub open spec fn shm_pixels(raw: u32) -> PixelFormat {
    if raw == 0x34324241 || raw == 0x34324258 {
        PixelFormat::Rgba
    } else {
        PixelFormat::Bgra
    }
}

/// The pixel format of a format number: red first for the two that say so.
pub fn wl_shm_format_to_pixel(raw: u32) -> (format: PixelFormat)
    ensures
        format == shm_pixels(raw),
{
    match raw {
        0x34324241 | 0x34324258 => PixelFormat::Rgba,
        _ => PixelFormat::Bgra,
    }
}

/// A buffer of plain memory.
#[derive(Clone, Copy, Debug, PartialEq, Eq, Structural)]
pub struct ShmLayout {
    pub size: u32,
    pub stride: u32,
    pub format: ShmFormat,
    pub pixel_format: PixelFormat,
}

/// The rows of a frame of plain memory fit in 32 bits.
pub open spec fn rows_fit(info: FrameInfo) -> bool {
    info.shm matches Some(s) ==> s.stride * info.height <= u32::MAX
}

/// Whether this is the buffer that a frame of plain memory needs: of the
/// offered format and row length, of a size above zero.
pub open spec fn is_layout(info: FrameInfo, l: ShmLayout) -> bool {
    &&& info.shm matches Some(s)
    &&& l.size == s.stride * info.height
    &&& l.size > 0
    &&& l.stride == s.stride
    &&& shm_format_of(s.format) == Some(l.format)
    &&& l.pixel_format == if l.format == ShmFormat::Abgr8888 || l.format == ShmFormat::Xbgr8888 {
        PixelFormat::Rgba
    } else {
        PixelFormat::Bgra
    }
}

/// Whether a frame of plain memory cannot be had, for the reason.
pub open spec fn no_layout(info: FrameInfo, e: FerricastError) -> bool {
    match info.shm {
        None => e.is_capture("compositor didn't offer wl_shm format for this frame"@),
        Some(s) => if s.stride * info.height == 0 {
            e.is_capture("compositor didn't offer wl_shm format for this frame"@)
        } else {
            shm_format_of(s.format) is None && e.is_capture(
                "unsupported wl_shm format 0x"@ + hex_fixed(s.format as nat, 8),
            )
        },
    }
}

/// The buffer that a frame of plain memory needs.
pub fn shm_layout(info: &FrameInfo) -> (out: Result<ShmLayout, FerricastError>)
    requires
        rows_fit(*info),
    ensures
        match out {
            Ok(l) => is_layout(*info, l),
            Err(e) => no_layout(*info, e),
        },
{
    let offer: ShmOffer = match info.shm {
        Some(s) => s,
        None => {
            return Err(
                FerricastError::Capture(
                    "compositor didn't offer wl_shm format for this frame".to_owned(),
                ),
            );
        },
    };
    let size: u32 = offer.stride * info.height;
    if size == 0 {
        return Err(
            FerricastError::Capture(
                "compositor didn't offer wl_shm format for this frame".to_owned(),
            ),
        );
    }
    match wl_shm_format(offer.format) {
        Ok(format) => Ok(
            ShmLayout {
                size,
                stride: offer.stride,
                format,
                pixel_format: wl_shm_format_to_pixel(offer.format),
            },
        ),
        Err(e) => Err(e),
    }
}

/// How far the capture of a frame is.
#[derive(Clone, Copy, Debug, PartialEq, Eq, Structural)]
pub enum WorkerStage {
    /// The compositor is asked what the next frame needs.
    Asking,
    /// A shared buffer is being allocated.
    Allocating(FrameInfo),
    /// The compositor writes the frame, into a shared buffer or not.
    Copying(bool),
    /// The capture has ended.
    Ended,
}

/// What the capture does next.
#[derive(Debug)]
pub enum WorkerAction {
    /// Allocate a shared buffer for the offer.
    MakeShared(DmabufOffer),
    /// Allocate plain memory and have the frame written into it.
    CopyPlain(ShmLayout),
    /// Have the frame written into the shared buffer.
    CopyShared,
    /// Hand the frame on, and ask for the next one.
    Emit,
    /// Let the frame go, and ask for the next one.
    Skip,
    /// End the capture.
    Fail(FerricastError),
}

/// The capture of one frame after another.
#[derive(Debug)]
pub struct FrameWorker {
    /// Whether shared buffers can be allocated.
    pub allocator: bool,
    /// Whether the compositor takes shared buffers.
    pub protocol: bool,
    pub health: DmabufHealth,
    /// Whether the size of the frames was told.
    pub size_told: bool,
    pub stage: WorkerStage,
}

/// The shared buffer that a frame is written into, where it is.
pub open spec fn shared_offer(worker: FrameWorker, info: FrameInfo) -> Option<DmabufOffer> {
    if worker.allocator && worker.protocol && !worker.health.disabled {
        info.dmabuf
    } else {
        None
    }
}

/// Whether the capture goes on with plain memory: in a buffer of the right
/// layout, or not at all where there is none.
pub open spec fn goes_plain(
    before: FrameWorker,
    after: FrameWorker,
    info: FrameInfo,
    action: WorkerAction,
) -> bool {
    match action {
        WorkerAction::CopyPlain(l) => is_layout(info, l) && after == (FrameWorker {
            stage: WorkerStage::Copying(false),
            ..before
        }),
        WorkerAction::Fail(e) => no_layout(info, e) && after == (FrameWorker {
            stage: WorkerStage::Ended,
            ..before
        }),
        _ => false,
    }
}

/// What an announcement of a frame leads to: the size to tell, and the action.
pub open spec fn takes_announcement(
    before: FrameWorker,
    info: Option<FrameInfo>,
    tell: Option<(u32, u32)>,
    action: WorkerAction,
    after: FrameWorker,
) -> bool {
    match info {
        None => {
            &&& tell is None
            &&& action matches WorkerAction::Fail(e)
            &&& e.is_capture("compositor didn't announce buffer params within 2s"@)
            &&& after == (FrameWorker { stage: WorkerStage::Ended, ..before })
        },
        Some(i) => {
            let told = FrameWorker { size_told: true, ..before };
            &&& tell == if before.size_told {
                None
            } else {
                Some((i.width, i.height))
            }
            &&& match shared_offer(before, i) {
                Some(offer) => {
                    &&& action matches WorkerAction::MakeShared(o)
                    &&& o == offer
                    &&& after == (FrameWorker { stage: WorkerStage::Allocating(i), ..told })
                },
                None => goes_plain(told, after, i, action),
            }
        },
    }
}

/// What the outcome of a frame leads to.
pub open spec fn takes_copy(
    before: FrameWorker,
    status: FrameStatus,
    action: WorkerAction,
    after: FrameWorker,
) -> bool {
    let ready = status == FrameStatus::Ready;
    &&& if ready {
        action is Emit
    } else {
        action is Skip
    }
    &&& after == (FrameWorker {
        health: before.health.after_frame(before.stage->Copying_0, ready),
        stage: WorkerStage::Asking,
        ..before
    })
}

impl FrameWorker {
    /// A capture that asks for its first frame.
    pub fn new(allocator: bool, protocol: bool) -> (worker: Self)
        ensures
            worker == (FrameWorker {
                allocator,
                protocol,
                health: DmabufHealth { disabled: false, failures: 0 },
                size_told: false,
                stage: WorkerStage::Asking,
            }),
    {
        FrameWorker {
            allocator,
            protocol,
            health: DmabufHealth::new(),
            size_told: false,
            stage: WorkerStage::Asking,
        }
    }

    fn go_plain(&mut self, info: &FrameInfo) -> (action: WorkerAction)
        requires
            rows_fit(*info),
        ensures
            goes_plain(*old(self), *final(self), *info, action),
    {
        match shm_layout(info) {
            Ok(l) => {
                self.stage = WorkerStage::Copying(false);
                WorkerAction::CopyPlain(l)
            },
            Err(e) => {
                self.stage = WorkerStage::Ended;
                WorkerAction::Fail(e)
            },
        }
    }

    /// Takes what the compositor said of the frame, if it did so in time: a
    /// shared buffer is tried where there may be one, else plain memory. The
    /// size is told with the first frame.
    pub fn announced(&mut self, info: Option<FrameInfo>) -> (out: (
        Option<(u32, u32)>,
        WorkerAction,
    ))
        requires
            old(self).stage == WorkerStage::Asking,
            info matches Some(i) ==> shared_offer(*old(self), i) is None ==> rows_fit(i),
        ensures
            takes_announcement(*old(self), info, out.0, out.1, *final(self)),
    {
        match info {
            None => {
                self.stage = WorkerStage::Ended;
                (
                    None,
                    WorkerAction::Fail(
                        FerricastError::Capture(
                            "compositor didn't announce buffer params within 2s".to_owned(),
                        ),
                    ),
                )
            },
            Some(i) => {
                let tell: Option<(u32, u32)> = if self.size_told {
                    None
                } else {
                    Some((i.width, i.height))
                };
                self.size_told = true;
                match dmabuf_for_frame(&i, self.allocator, self.protocol, &self.health) {
                    Some(offer) => {
                        self.stage = WorkerStage::Allocating(i);
                        (tell, WorkerAction::MakeShared(offer))
                    },
                    None => {
                        let action: WorkerAction = self.go_plain(&i);
                        (tell, action)
                    },
                }
            },
        }
    }

    /// Takes the outcome of an allocation: a frame whose shared buffer could
    /// not be made goes on with plain memory.
    pub fn allocated(&mut self, made: bool) -> (action: WorkerAction)
        requires
            old(self).stage matches WorkerStage::Allocating(i) && (!made ==> rows_fit(i)),
        ensures
            if made {
                action is CopyShared && *final(self) == (FrameWorker {
                    stage: WorkerStage::Copying(true),
                    ..*old(self)
                })
            } else {
                goes_plain(*old(self), *final(self), old(self).stage->Allocating_0, action)
            },
    {
        if made {
            self.stage = WorkerStage::Copying(true);
            return WorkerAction::CopyShared;
        }
        match self.stage {
            WorkerStage::Allocating(i) => self.go_plain(&i),
            _ => WorkerAction::Skip,
        }
    }

    /// Takes the outcome of a frame, where it came in time: only a frame that
    /// is ready is handed on, and each counts for the health of shared
    /// buffers.
    pub fn copied(&mut self, status: FrameStatus) -> (action: WorkerAction)
        requires
            old(self).stage is Copying,
        ensures
            takes_copy(*old(self), status, action, *final(self)),
    {
        let shared: bool = match self.stage {
            WorkerStage::Copying(shared) => shared,
            _ => false,
        };
        let ready: bool = status == FrameStatus::Ready;
        self.health.frame_done(shared, ready);
        self.stage = WorkerStage::Asking;
        if ready {
            WorkerAction::Emit
        } else {
            WorkerAction::Skip
        }
    }
}

/// A capture that has given shared buffers up asks for plain memory alone,
/// whatever the compositor offers.
pub proof fn given_up_means_plain(worker: FrameWorker, info: FrameInfo)
    requires
        worker.health.disabled,
    ensures
        shared_offer(worker, info) is None,
{
}

/// An output of the compositor, and its name once that is known.
pub struct NamedOutput {
    pub id: u32,
    pub name: Option<String>,
}

/// Whether the output has the name.
pub open spec fn is_named(output: NamedOutput, name: Seq<char>) -> bool {
    output.name matches Some(n) && n@ == name
}

/// The outputs after the output `id` told its name.
pub open spec fn named(outputs: Seq<NamedOutput>, id: u32, name: String) -> Seq<NamedOutput>
    decreases outputs.len(),
{
    if outputs.len() == 0 {
        outputs
    } else if outputs[0].id == id {
        outputs.update(0, NamedOutput { id, name: Some(name) })
    } else {
        seq![outputs[0]] + named(outputs.skip(1), id, name)
    }
}

/// The outputs after a name was told of no output in particular: the first one
/// without a name gets it.
pub open spec fn first_named(outputs: Seq<NamedOutput>, name: String) -> Seq<NamedOutput>
    decreases outputs.len(),
{
    if outputs.len() == 0 {
        outputs
    } else if outputs[0].name is None {
        outputs.update(0, NamedOutput { id: outputs[0].id, name: Some(name) })
    } else {
        seq![outputs[0]] + first_named(outputs.skip(1), name)
    }
}

proof fn lemma_named(outputs: Seq<NamedOutput>, id: u32, name: String, at: int)
    requires
        0 <= at <= outputs.len(),
        forall|j: int| 0 <= j < at ==> (#[trigger] outputs[j]).id != id,
        at < outputs.len() ==> outputs[at].id == id,
    ensures
        named(outputs, id, name) == if at < outputs.len() {
            outputs.update(at, NamedOutput { id, name: Some(name) })
        } else {
            outputs
        },
    decreases outputs.len(),
{
    if outputs.len() > 0 && at > 0 {
        let rest = outputs.skip(1);
        assert forall|j: int| 0 <= j < at - 1 implies (#[trigger] rest[j]).id != id by {
            assert(rest[j] == outputs[j + 1]);
        }
        lemma_named(rest, id, name, at - 1);
        if at < outputs.len() {
            assert(seq![outputs[0]] + rest.update(at - 1, NamedOutput { id, name: Some(name) })
                =~= outputs.update(at, NamedOutput { id, name: Some(name) }));
        } else {
            assert(seq![outputs[0]] + rest =~= outputs);
        }
    }
}

proof fn lemma_first_named(outputs: Seq<NamedOutput>, name: String, at: int)
    requires
        0 <= at <= outputs.len(),
        forall|j: int| 0 <= j < at ==> (#[trigger] outputs[j]).name is Some,
        at < outputs.len() ==> outputs[at].name is None,
    ensures
        first_named(outputs, name) == if at < outputs.len() {
            outputs.update(at, NamedOutput { id: outputs[at].id, name: Some(name) })
        } else {
            outputs
        },
    decreases outputs.len(),
{
    if outputs.len() > 0 && at > 0 {
        let rest = outputs.skip(1);
        assert forall|j: int| 0 <= j < at - 1 implies (#[trigger] rest[j]).name is Some by {
            assert(rest[j] == outputs[j + 1]);
        }
        lemma_first_named(rest, name, at - 1);
        if at < outputs.len() {
            assert(rest[at - 1] == outputs[at]);
            assert(seq![outputs[0]] + rest.update(
                at - 1,
                NamedOutput { id: outputs[at].id, name: Some(name) },
            ) =~= outputs.update(at, NamedOutput { id: outputs[at].id, name: Some(name) }));
        } else {
            assert(seq![outputs[0]] + rest =~= outputs);
        }
    }
}

/// Takes the name of the output `id`.
pub fn name_output(outputs: &mut Vec<NamedOutput>, id: u32, name: String)
    ensures
        final(outputs)@ == named(old(outputs)@, id, name),
{
    let mut i: usize = 0;
    while i < outputs.len()
        invariant
            i <= outputs@.len(),
            outputs@ == old(outputs)@,
            forall|j: int| 0 <= j < i ==> (#[trigger] outputs@[j]).id != id,
        decreases outputs@.len() - i,
    {
        if outputs[i].id == id {
            proof {
                lemma_named(outputs@, id, name, i as int);
            }
            outputs.set(i, NamedOutput { id, name: Some(name) });
            return ;
        }
        i = i + 1;
    }
    proof {
        lemma_named(outputs@, id, name, i as int);
    }
}

/// Takes a name that was told of no output in particular.
pub fn name_first_unnamed(outputs: &mut Vec<NamedOutput>, name: String)
    ensures
        final(outputs)@ == first_named(old(outputs)@, name),
{
    let mut i: usize = 0;
    while i < outputs.len()
        invariant
            i <= outputs@.len(),
            outputs@ == old(outputs)@,
            forall|j: int| 0 <= j < i ==> (#[trigger] outputs@[j]).name is Some,
        decreases outputs@.len() - i,
    {
        if outputs[i].name.is_none() {
            proof {
                lemma_first_named(outputs@, name, i as int);
            }
            let id: u32 = outputs[i].id;
            outputs.set(i, NamedOutput { id, name: Some(name) });
            return ;
        }
        i = i + 1;
    }
    proof {
        lemma_first_named(outputs@, name, i as int);
    }
}

/// The first output with the name.
pub fn find_output(outputs: &[NamedOutput], name: &str) -> (out: Result<usize, FerricastError>)
    ensures
        match out {
            Ok(i) => i < outputs@.len() && is_named(outputs@[i as int], name@) && forall|j: int|
                0 <= j < i ==> !is_named(#[trigger] outputs@[j], name@),
            Err(e) => (forall|j: int|
                0 <= j < outputs@.len() ==> !is_named(#[trigger] outputs@[j], name@))
                && e.is_capture("no output named "@ + debug_spelling(name@)),
        },
{
    let mut i: usize = 0;
    while i < outputs.len()
        invariant
            i <= outputs@.len(),
            forall|j: int| 0 <= j < i ==> !is_named(#[trigger] outputs@[j], name@),
        decreases outputs@.len() - i,
    {
        match &outputs[i].name {
            Some(n) => {
                if str_eq(n.as_str(), name) {
                    return Ok(i);
                }
            },
            None => {},
        }
        i = i + 1;
    }
    let shown: String = debug_text(name);
    Err(FerricastError::Capture(join2("no output named ", shown.as_str())))
}

/// The device number that eight bytes carry, least significant first.
pub open spec fn dev_t_of(bytes: Seq<u8>) -> Option<u64> {
    if bytes.len() == 8 {
        Some(le_value(bytes) as u64)
    } else {
        None
    }
}

/// The device number that eight bytes carry; other lengths carry none.
pub fn decode_dev_t(device: &[u8]) -> (number: Option<u64>)
    ensures
        number == dev_t_of(device@),
        number is Some ==> number->0 == le_value(device@),
{
    if device.len() != 8 {
        return None;
    }
    assert(device@.subrange(0, 8) =~= device@);
    Some(read_le(device, 0, 8))
}

/// One group of formats that the compositor accepts on one device.
pub struct Tranche {
    pub target_device: Option<u64>,
    pub indices: Vec<u16>,
}

/// What the compositor told of the buffers it accepts.
pub struct Feedback {
    pub done: bool,
    pub main_device: Option<u64>,
    pub tranches: Vec<Tranche>,
    pub current: Option<Tranche>,
}

/// The indices that pairs of bytes carry, least significant byte first.
pub open spec fn indices_of(bytes: Seq<u8>) -> Seq<u16> {
    Seq::new(bytes.len() / 2, |i: int| le_value(bytes.subrange(2 * i, 2 * i + 2)) as u16)
}

impl Feedback {
    /// Nothing was told yet.
    pub fn new() -> (feedback: Self)
        ensures
            !feedback.done,
            feedback.main_device is None,
            feedback.tranches@.len() == 0,
            feedback.current is None,
    {
        Feedback { done: false, main_device: None, tranches: Vec::new(), current: None }
    }

    /// The compositor renders on this device.
    pub fn set_main_device(&mut self, device: &[u8])
        ensures
            final(self).main_device == dev_t_of(device@),
            final(self).done == old(self).done,
            final(self).tranches == old(self).tranches,
            final(self).current == old(self).current,
    {
        self.main_device = decode_dev_t(device);
    }

    /// The indices of the open group.
    pub open spec fn open_indices(self) -> Seq<u16> {
        match self.current {
            Some(t) => t.indices@,
            None => Seq::empty(),
        }
    }

    /// The device of the open group.
    pub open spec fn open_device(self) -> Option<u64> {
        match self.current {
            Some(t) => t.target_device,
            None => None,
        }
    }

    /// The open group is for this device; where none is open, one is opened.
    pub fn tranche_device(&mut self, device: &[u8])
        ensures
            final(self).current is Some,
            final(self).open_device() == dev_t_of(device@),
            final(self).open_indices() == old(self).open_indices(),
            final(self).done == old(self).done,
            final(self).main_device == old(self).main_device,
            final(self).tranches == old(self).tranches,
    {
        let target_device: Option<u64> = decode_dev_t(device);
        let indices: Vec<u16> = match self.current.take() {
            Some(t) => t.indices,
            None => Vec::new(),
        };
        assert(indices@ =~= old(self).open_indices());
        self.current = Some(Tranche { target_device, indices });
    }

    /// The open group holds these formats too; an odd byte at the end is
    /// ignored.
    pub fn tranche_formats(&mut self, bytes: &[u8])
        ensures
            final(self).current is Some,
            final(self).open_device() == old(self).open_device(),
            final(self).open_indices() == old(self).open_indices() + indices_of(bytes@),
            final(self).done == old(self).done,
            final(self).main_device == old(self).main_device,
            final(self).tranches == old(self).tranches,
    {
        let (target_device, mut indices) = match self.current.take() {
            Some(t) => (t.target_device, t.indices),
            None => (None, Vec::new()),
        };
        let ghost before = indices@;
        assert(before =~= old(self).open_indices());
        let len: usize = bytes.len();
        let count: usize = len / 2;
        let mut i: usize = 0;
        while i < count
            invariant
                len == bytes@.len(),
                count == len / 2,
                i <= count,
                indices@ == before + indices_of(bytes@).take(i as int),
            decreases count - i,
        {
            let v: u64 = read_le(bytes, 2 * i, 2);
            proof {
                let pair = bytes@.subrange(2 * i, 2 * i + 2);
                lemma_le_value_bound(pair);
                lemma_pow256_small();
            }
            indices.push(v as u16);
            i = i + 1;
            assert(indices@ =~= before + indices_of(bytes@).take(i as int));
        }
        assert(indices@ =~= before + indices_of(bytes@));
        self.current = Some(Tranche { target_device, indices });
    }

    /// The open group is complete.
    pub fn tranche_done(&mut self)
        ensures
            final(self).current is None,
            final(self).done == old(self).done,
            final(self).main_device == old(self).main_device,
            final(self).tranches@ == match old(self).current {
                Some(t) => old(self).tranches@.push(t),
                None => old(self).tranches@,
            },
    {
        match self.current.take() {
            Some(t) => {
                self.tranches.push(t);
            },
            None => {},
        }
    }
}

/// The modifier appended to those of the format, unless it is there.
pub open spec fn accepted_with(
    accepted: Map<u32, Seq<u64>>,
    format: u32,
    modifier: u64,
) -> Map<u32, Seq<u64>> {
    let list = if accepted.dom().contains(format) {
        accepted[format]
    } else {
        Seq::empty()
    };
    if list.contains(modifier) {
        accepted
    } else {
        accepted.insert(format, list.push(modifier))
    }
}

/// The format at a place of the table: the first four of sixteen bytes.
pub open spec fn table_format(table: Seq<u8>, index: int) -> u32 {
    le_value(table.subrange(index * 16, index * 16 + 4)) as u32
}

/// The modifier at a place of the table: the last eight of sixteen bytes.
pub open spec fn table_modifier(table: Seq<u8>, index: int) -> u64 {
    le_value(table.subrange(index * 16 + 8, index * 16 + 16)) as u64
}

/// The pairs at the indices, added in order; indices past the table add nothing.
pub open spec fn accept_indices(
    accepted: Map<u32, Seq<u64>>,
    table: Seq<u8>,
    indices: Seq<u16>,
) -> Map<u32, Seq<u64>>
    decreases indices.len(),
{
    if indices.len() == 0 {
        accepted
    } else {
        let before = accept_indices(accepted, table, indices.drop_last());
        let at = indices.last() as int;
        if at * 16 + 16 > table.len() {
            before
        } else {
            accepted_with(before, table_format(table, at), table_modifier(table, at))
        }
    }
}

/// The pairs of the groups for the device that the compositor renders on.
pub open spec fn accept_tranches(
    table: Seq<u8>,
    tranches: Seq<Tranche>,
    main_device: u64,
) -> Map<u32, Seq<u64>>
    decreases tranches.len(),
{
    if tranches.len() == 0 {
        Map::empty()
    } else {
        let before = accept_tranches(table, tranches.drop_last(), main_device);
        if tranches.last().target_device == Some(main_device) {
            accept_indices(before, table, tranches.last().indices@)
        } else {
            before
        }
    }
}

/// What the compositor accepts: nothing is known unless it named its device
/// and sent a table of whole entries.
pub open spec fn accepted_formats(
    table: Option<Seq<u8>>,
    tranches: Seq<Tranche>,
    main_device: Option<u64>,
) -> Map<u32, Seq<u64>> {
    match (table, main_device) {
        (Some(t), Some(d)) => if t.len() > 0 && t.len() % 16 == 0 {
            accept_tranches(t, tranches, d)
        } else {
            Map::empty()
        },
        _ => Map::empty(),
    }
}

/// The modifiers by format of an executable map.
pub open spec fn modifiers_of(map: Map<u32, Vec<u64>>) -> Map<u32, Seq<u64>> {
    map.map_values(|v: Vec<u64>| v@)
}

fn accept(accepted: &mut HashMap<u32, Vec<u64>>, format: u32, modifier: u64)
    ensures
        modifiers_of(final(accepted)@) == accepted_with(
            modifiers_of(old(accepted)@),
            format,
            modifier,
        ),
{
    broadcast use group_hash_axioms;

    let mut list: Vec<u64> = match accepted.get(&format) {
        Some(l) => copy_modifiers(l),
        None => Vec::new(),
    };
    let ghost before = modifiers_of(accepted@);
    let ghost known = if before.dom().contains(format) {
        before[format]
    } else {
        Seq::empty()
    };
    assert(list@ =~= known);
    let mut i: usize = 0;
    while i < list.len()
        invariant
            i <= list@.len(),
            list@ == known,
            modifiers_of(accepted@) == before,
            accepted@ == old(accepted)@,
            before == modifiers_of(old(accepted)@),
            known == (if before.dom().contains(format) {
                before[format]
            } else {
                Seq::empty()
            }),
            forall|k: int| 0 <= k < i ==> list@[k] != modifier,
        decreases list@.len() - i,
    {
        if list[i] == modifier {
            assert(known.contains(modifier));
            return;
        }
        i = i + 1;
    }
    assert(!known.contains(modifier));
    list.push(modifier);
    accepted.insert(format, list);
    assert(modifiers_of(accepted@) =~= before.insert(format, known.push(modifier)));
}

/// What the compositor accepts on the device that it renders on.
pub fn resolve_feedback(feedback: &Feedback, table: Option<&[u8]>) -> (accepted: HashMap<
    u32,
    Vec<u64>,
>)
    ensures
        modifiers_of(accepted@) == accepted_formats(
            match table {
                Some(t) => Some(t@),
                None => None,
            },
            feedback.tranches@,
            feedback.main_device,
        ),
{
    broadcast use group_hash_axioms;

    let mut accepted: HashMap<u32, Vec<u64>> = HashMap::new();
    assert(modifiers_of(accepted@) =~= Map::<u32, Seq<u64>>::empty());
    let bytes: &[u8] = match table {
        Some(t) => t,
        None => {
            return accepted;
        },
    };
    let main_device: u64 = match feedback.main_device {
        Some(d) => d,
        None => {
            return accepted;
        },
    };
    let len: usize = bytes.len();
    if len == 0 || len % 16 != 0 {
        return accepted;
    }
    let tranches = &feedback.tranches;
    let mut t: usize = 0;
    assert(tranches@.take(0) =~= Seq::<Tranche>::empty());
    while t < tranches.len()
        invariant
            len == bytes@.len(),
            t <= tranches@.len(),
            modifiers_of(accepted@) == accept_tranches(
                bytes@,
                tranches@.take(t as int),
                main_device,
            ),
        decreases tranches@.len() - t,
    {
        let ghost before = modifiers_of(accepted@);
        let ghost next = tranches@.take(t + 1);
        assert(next.drop_last() =~= tranches@.take(t as int));
        assert(next.last() == tranches@[t as int]);
        let wanted: bool = match tranches[t].target_device {
            Some(d) => d == main_device,
            None => false,
        };
        if wanted {
            let indices = &tranches[t].indices;
            let mut i: usize = 0;
            assert(indices@.take(0) =~= Seq::<u16>::empty());
            while i < indices.len()
                invariant
                    len == bytes@.len(),
                    i <= indices@.len(),
                    modifiers_of(accepted@) == accept_indices(
                        before,
                        bytes@,
                        indices@.take(i as int),
                    ),
                decreases indices@.len() - i,
            {
                let ghost more = indices@.take(i + 1);
                assert(more.drop_last() =~= indices@.take(i as int));
                let at: usize = indices[i] as usize * 16;
                assert(at == more.last() as int * 16);
                if at <= len && len - at >= 16 {
                    let format: u64 = read_le(bytes, at, 4);
                    proof {
                        lemma_le_value_bound(bytes@.subrange(at as int, at + 4));
                        lemma_pow256_small();
                    }
                    let modifier: u64 = read_le(bytes, at + 8, 8);
                    accept(&mut accepted, format as u32, modifier);
                }
                i = i + 1;
            }
            assert(indices@.take(indices@.len() as int) =~= indices@);
        }
        t = t + 1;
    }
    assert(tranches@.take(tranches@.len() as int) =~= tranches@);
    accepted
}

/// No format lists a modifier twice.
pub proof fn accepted_modifiers_are_distinct(
    table: Seq<u8>,
    tranches: Seq<Tranche>,
    main_device: u64,
    format: u32,
)
    requires
        accept_tranches(table, tranches, main_device).dom().contains(format),
    ensures
        accept_tranches(table, tranches, main_device)[format].no_duplicates(),
{
    lemma_tranches_distinct(table, tranches, main_device);
}

spec fn all_distinct(accepted: Map<u32, Seq<u64>>) -> bool {
    forall|f: u32| #[trigger]
        accepted.dom().contains(f) ==> accepted[f].no_duplicates()
}

proof fn lemma_indices_distinct(
    accepted: Map<u32, Seq<u64>>,
    table: Seq<u8>,
    indices: Seq<u16>,
)
    requires
        all_distinct(accepted),
    ensures
        all_distinct(accept_indices(accepted, table, indices)),
    decreases indices.len(),
{
    if indices.len() > 0 {
        lemma_indices_distinct(accepted, table, indices.drop_last());
        let before = accept_indices(accepted, table, indices.drop_last());
        let at = indices.last() as int;
        if at * 16 + 16 <= table.len() {
            let format = table_format(table, at);
            let modifier = table_modifier(table, at);
            let list = if before.dom().contains(format) {
                before[format]
            } else {
                Seq::empty()
            };
            assert(list.no_duplicates());
            if !list.contains(modifier) {
                assert(list.push(modifier).no_duplicates());
            }
        }
    }
}

proof fn lemma_tranches_distinct(table: Seq<u8>, tranches: Seq<Tranche>, main_device: u64)
    ensures
        all_distinct(accept_tranches(table, tranches, main_device)),
    decreases tranches.len(),
{
    if tranches.len() > 0 {
        lemma_tranches_distinct(table, tranches.drop_last(), main_device);
        if tranches.last().target_device == Some(main_device) {
            lemma_indices_distinct(
                accept_tranches(table, tranches.drop_last(), main_device),
                table,
                tranches.last().indices@,
            );
        }
    }
}

/// The layouts to try are those that the compositor accepts, each of them and no
/// others; where it names none, the linear one and then the driver's own choice.
pub proof fn every_accepted_layout_is_tried(accepted: Seq<u64>, wanted: Seq<u64>, m: u64)
    requires
        is_candidate_list(accepted, wanted),
    ensures
        accepted.len() > 0 ==> wanted.len() == accepted.len() && wanted.contains(m)
            == accepted.contains(m),
        accepted.len() == 0 ==> wanted == seq![0u64, 0x00ff_ffff_ffff_ffff],
{
    if accepted.len() > 0 && accepted.contains(DRM_FORMAT_MOD_LINEAR) {
        let p = choose|p: int|
            0 <= p < accepted.len() && accepted[p] == DRM_FORMAT_MOD_LINEAR && (forall|j: int|
                0 <= j < p ==> accepted[j] != DRM_FORMAT_MOD_LINEAR) && wanted
                == #[trigger] accepted.update(p, accepted[0]).update(0, DRM_FORMAT_MOD_LINEAR);
        if accepted.contains(m) {
            let i = choose|i: int| 0 <= i < accepted.len() && accepted[i] == m;
            if i == 0 {
                assert(wanted[p] == if p == 0 {
                    DRM_FORMAT_MOD_LINEAR
                } else {
                    accepted[0]
                });
            } else if i == p {
                assert(wanted[0] == m);
            } else {
                assert(wanted[i] == m);
            }
        }
        if wanted.contains(m) {
            let i = choose|i: int| 0 <= i < wanted.len() && wanted[i] == m;
            if i == 0 {
                assert(accepted[p] == m);
            } else if i == p {
                assert(accepted[0] == m);
            } else {
                assert(accepted[i] == m);
            }
        }
    }
}

/// Numbers on the display's wire have their least significant byte first: the
/// number of a device in eight bytes, the place of a format in two, and in an
/// entry of the table the format in the first four bytes and the layout in the
/// last eight of sixteen.
pub proof fn wire_numbers_are_least_significant_first(bytes: Seq<u8>, i: int)
    requires
        0 <= i,
    ensures
        bytes.len() == 8 ==> dev_t_of(bytes) == Some(le_value(bytes) as u64),
        bytes.len() != 8 ==> dev_t_of(bytes) is None,
        indices_of(bytes).len() == bytes.len() / 2,
        2 * i + 2 <= bytes.len() ==> indices_of(bytes)[i] == bytes[2 * i] + 256 * bytes[2 * i + 1],
        table_format(bytes, i) == le_value(bytes.subrange(i * 16, i * 16 + 4)) as u32,
        table_modifier(bytes, i) == le_value(bytes.subrange(i * 16 + 8, i * 16 + 16)) as u64,
{
    if 2 * i + 2 <= bytes.len() {
        let pair = bytes.subrange(2 * i, 2 * i + 2);
        assert(pair.skip(1) =~= seq![bytes[2 * i + 1]]);
        assert(pair.skip(1).skip(1) =~= Seq::<u8>::empty());
        reveal_with_fuel(le_value, 3);
        assert(le_value(pair) == bytes[2 * i] + 256 * bytes[2 * i + 1]);
    }
}

/// A format that is accepted with a layout is listed with it, behind those that
/// it had, and once; nothing else changes.
pub proof fn accepted_layouts_are_listed(
    accepted: Map<u32, Seq<u64>>,
    format: u32,
    modifier: u64,
    other: u32,
)
    requires
        other != format,
    ensures
        ({
            let now = accepted_with(accepted, format, modifier);
            &&& now.dom().contains(format) && now[format].contains(modifier)
            &&& now.dom().contains(other) == accepted.dom().contains(other)
            &&& accepted.dom().contains(other) ==> now[other] == accepted[other]
            &&& accepted.dom().contains(format) && !accepted[format].contains(modifier)
                ==> now[format] == accepted[format].push(modifier)
            &&& accepted.dom().contains(format) && accepted[format].contains(modifier) ==> now
                == accepted
        }),
{
    let list = if accepted.dom().contains(format) {
        accepted[format]
    } else {
        Seq::empty()
    };
    if !list.contains(modifier) {
        assert(list.push(modifier)[list.len() as int] == modifier);
    }
}

/// The entries that a group of formats names are accepted one after another, in
/// the order of the group; places behind the end of the table name nothing.
pub proof fn groups_name_entries_of_the_table(
    accepted: Map<u32, Seq<u64>>,
    table: Seq<u8>,
    indices: Seq<u16>,
    at: u16,
)
    ensures
        at * 16 + 16 <= table.len() ==> accept_indices(accepted, table, indices.push(at))
            == accepted_with(
            accept_indices(accepted, table, indices),
            table_format(table, at as int),
            table_modifier(table, at as int),
        ),
        at * 16 + 16 > table.len() ==> accept_indices(accepted, table, indices.push(at))
            == accept_indices(accepted, table, indices),
        accept_indices(accepted, table, Seq::empty()) == accepted,
{
    assert(indices.push(at).drop_last() =~= indices);
}

/// Groups for the device that the compositor renders on count, those for other
/// devices do not; without that device, or with a table that does not consist of
/// whole entries, nothing is known.
pub proof fn groups_of_the_main_device_count(
    table: Seq<u8>,
    tranches: Seq<Tranche>,
    t: Tranche,
    device: u64,
)
    ensures
        t.target_device == Some(device) ==> accept_tranches(table, tranches.push(t), device)
            == accept_indices(accept_tranches(table, tranches, device), table, t.indices@),
        t.target_device != Some(device) ==> accept_tranches(table, tranches.push(t), device)
            == accept_tranches(table, tranches, device),
        accept_tranches(table, Seq::empty(), device) == Map::<u32, Seq<u64>>::empty(),
        accepted_formats(None, tranches, Some(device)) == Map::<u32, Seq<u64>>::empty(),
        accepted_formats(Some(table), tranches, None) == Map::<u32, Seq<u64>>::empty(),
        table.len() % 16 != 0 ==> accepted_formats(Some(table), tranches, Some(device)) == Map::<
            u32,
            Seq<u64>,
        >::empty(),
        table.len() > 0 && table.len() % 16 == 0 ==> accepted_formats(
            Some(table),
            tranches,
            Some(device),
        ) == accept_tranches(table, tranches, device),
{
    assert(tranches.push(t).drop_last() =~= tranches);
}

/// A name that an output tells is its own from then on, and no other output
/// changes; a name that is told of no output goes to the first without one.
pub proof fn names_go_to_their_outputs(outputs: Seq<NamedOutput>, id: u32, name: String, at: int)
    requires
        0 <= at < outputs.len(),
    ensures
        outputs[at].id == id && (forall|j: int| 0 <= j < at ==> (#[trigger] outputs[j]).id != id)
            ==> named(outputs, id, name) == outputs.update(
            at,
            NamedOutput { id, name: Some(name) },
        ),
        outputs[at].name is None && (forall|j: int|
            0 <= j < at ==> (#[trigger] outputs[j]).name is Some) ==> first_named(outputs, name)
            == outputs.update(at, NamedOutput { id: outputs[at].id, name: Some(name) }),
        is_named(NamedOutput { id, name: Some(name) }, name@),
{
    if outputs[at].id == id && (forall|j: int| 0 <= j < at ==> (#[trigger] outputs[j]).id != id) {
        lemma_named(outputs, id, name, at);
    }
    if outputs[at].name is None && (forall|j: int|
        0 <= j < at ==> (#[trigger] outputs[j]).name is Some) {
        lemma_first_named(outputs, name, at);
    }
}

/// A shared buffer is used where the compositor offers one, one can be
/// allocated and handed over, and shared buffers were not given up.
pub proof fn shared_buffers_are_used_where_they_can_be(worker: FrameWorker, info: FrameInfo)
    ensures
        shared_offer(worker, info) is Some ==> worker.allocator && worker.protocol
            && !worker.health.disabled && shared_offer(worker, info) == info.dmabuf,
        worker.allocator && worker.protocol && !worker.health.disabled ==> shared_offer(
            worker,
            info,
        ) == info.dmabuf,
{
}

/// A frame of plain memory needs as many bytes as its rows, in the layout that
/// was offered, and its pixels have red first where the layout says so.
pub proof fn plain_buffers_hold_all_rows(info: FrameInfo, s: ShmOffer, l: ShmLayout)
    requires
        info.shm == Some(s),
        is_layout(info, l),
    ensures
        l.size == s.stride * info.height,
        l.stride == s.stride,
        s.format == 0 || s.format == 1 ==> l.pixel_format == PixelFormat::Bgra,
        s.format == 0x34324241 || s.format == 0x34324258 ==> l.pixel_format == PixelFormat::Rgba,
{
}

/// A success starts the count of failures anew, plain frames do not count, and
/// one failure is one more.
pub proof fn failures_are_counted_in_a_row(health: DmabufHealth)
    requires
        health.failures < 1000,
    ensures
        health.after_frame(true, true).failures == 0,
        health.after_frame(true, true).disabled == health.disabled,
        health.after_frame(false, true) == health,
        health.after_frame(false, false) == health,
        health.after_frame(true, false).failures == health.failures + 1,
        DMABUF_FAILURE_THRESHOLD == 3,
        FOURCC_ARGB8888 == 'A' as u32 + 0x100 * ('R' as u32) + 0x1_0000 * ('2' as u32)
            + 0x100_0000 * ('4' as u32),
        FOURCC_ABGR8888 == 'A' as u32 + 0x100 * ('B' as u32) + 0x1_0000 * ('2' as u32)
            + 0x100_0000 * ('4' as u32),
{
}

/// The render nodes are called by their numbers, and one is the compositor's
/// where it opens and has its number.
pub proof fn render_nodes_are_called_by_their_numbers(n: nat, node: RenderNode, target: u64)
    ensures
        render_node_path(n) == "/dev/dri/renderD"@ + decimal(n),
        node_matches(node, target) == (node.opens && node.device == Some(target)),
{
}

/// As many frames as the rate tells fit in a second, and with any longer period
/// they would not.
pub proof fn frames_fill_a_second(fps: u32)
    requires
        fps > 0,
    ensures
        period_us(fps) * fps <= 1_000_000 < (period_us(fps) + 1) * fps,
        period_us(0) == period_us(1),
{
    let f = fps as int;
    let p = 1_000_000int / f;
    vstd::arithmetic::div_mod::lemma_fundamental_div_mod(1_000_000, f);
    assert(p * f <= 1_000_000 < (p + 1) * f) by (nonlinear_arith)
        requires
            1_000_000 == f * p + 1_000_000int % f,
            0 <= 1_000_000int % f < f,
    ;
}

/// A plane takes its rows, one after the other, as far as its size can be told.
pub proof fn planes_take_their_rows(stride: u32, height: u32)
    ensures
        stride * height <= u32::MAX ==> plane_bytes(stride, height) == stride * height,
        plane_bytes(stride, height) <= u32::MAX,
        plane_bytes(stride, 1) == stride,
        stride * height > u32::MAX ==> plane_bytes(stride, height) == u32::MAX,
{
}

/// Red comes first in the formats that are spelt "AB24" and "XB24", and blue in
/// all others.
pub proof fn red_comes_first_where_it_is_spelt(raw: u32)
    ensures
        shm_pixels(raw) == PixelFormat::Rgba <==> {
            let second = raw / 0x100 % 0x100;
            &&& raw % 0x100 == 'A' as u32 || raw % 0x100 == 'X' as u32
            &&& second == 'B' as u32
            &&& raw / 0x1_0000 % 0x100 == '2' as u32
            &&& raw / 0x100_0000 == '4' as u32
        },
        shm_pixels(raw) == PixelFormat::Rgba || shm_pixels(raw) == PixelFormat::Bgra,
{
}

/// The size is told once, with the first frame that is announced, width first;
/// without an announcement the capture ends.
pub proof fn size_is_told_once(
    before: FrameWorker,
    info: Option<FrameInfo>,
    tell: Option<(u32, u32)>,
    action: WorkerAction,
    after: FrameWorker,
)
    requires
        takes_announcement(before, info, tell, action, after),
    ensures
        info is None ==> tell is None && action is Fail && after.stage == WorkerStage::Ended,
        info is Some ==> after.size_told,
        tell is Some <==> info is Some && !before.size_told,
        tell matches Some(size) ==> size.0 == info->0.width && size.1 == info->0.height,
        after.health == before.health,
{
}

/// A frame is asked of shared memory where that is on offer, and of plain memory
/// everywhere else.
pub proof fn plain_memory_stands_in(
    before: FrameWorker,
    info: FrameInfo,
    tell: Option<(u32, u32)>,
    action: WorkerAction,
    after: FrameWorker,
)
    requires
        takes_announcement(before, Some(info), tell, action, after),
    ensures
        action is MakeShared <==> shared_offer(before, info) is Some,
        action matches WorkerAction::MakeShared(o) ==> shared_offer(before, info) == Some(o)
            && after.stage == WorkerStage::Allocating(info),
        action is CopyPlain ==> after.stage == WorkerStage::Copying(false),
        action is MakeShared || action is CopyPlain || action is Fail,
        action is Fail <==> after.stage == WorkerStage::Ended,
{
}

/// Only a frame that is ready is handed on, and after any the next is asked for.
pub proof fn ready_frames_are_handed_on(
    before: FrameWorker,
    status: FrameStatus,
    action: WorkerAction,
    after: FrameWorker,
)
    requires
        takes_copy(before, status, action, after),
    ensures
        action is Emit <==> status == FrameStatus::Ready,
        action is Skip <==> status != FrameStatus::Ready,
        after.stage == WorkerStage::Asking,
        after.size_told == before.size_told,
{
}

} // verus!
