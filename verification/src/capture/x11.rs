//! Capture and listing on an X server: which drawable is read, and how windows
//! are shown.

use vstd::prelude::*;
use vstd::string::*;

use crate::capture::sources::{
    class_of, keep_window, monitor_for, shared_area, text, window_class, x11_stride, Geometry,
    MonitorInfo, WindowInfo,
};
use crate::capture::wayland_direct::{CaptureSource, WindowIdentifier};
use crate::error::FerricastError;
use crate::media::{PixelFormat, RawFrame};
use crate::text::{
    debug_spelling, debug_text, decimal, decimal_text, join2, lossy_spelling, lossy_text, str_eq,
};

verus! {

/// What is to be captured.
#[derive(Debug, PartialEq, Eq)]
pub enum X11Target {
    /// The whole desktop.
    Root,
    /// The monitor with the name.
    Monitor(String),
    /// The window with the number.
    Window(u32),
    /// The first window with the title.
    Titled(String),
}

/// What is to be captured for a user's choice, where that can be told. Of a
/// window's number the low half counts.
pub open spec fn target_of(source: CaptureSource) -> Option<X11Target> {
    match source {
        CaptureSource::FullScreen { monitor: None } => Some(X11Target::Root),
        CaptureSource::FullScreen { monitor: Some(name) } => Some(X11Target::Monitor(name)),
        CaptureSource::Window { identifier: Some(WindowIdentifier::Id(id)) } => Some(
            X11Target::Window((id % 0x1_0000_0000) as u32),
        ),
        CaptureSource::Window { identifier: Some(WindowIdentifier::Title(title)) } => Some(
            X11Target::Titled(title),
        ),
        CaptureSource::Window { identifier: None } => None,
    }
}

/// What is to be captured for a user's choice. A window has to be picked.
pub fn x11_target(source: CaptureSource) -> (out: Result<X11Target, FerricastError>)
    ensures
        match target_of(source) {
            Some(target) => out == Ok::<_, FerricastError>(target),
            None => out matches Err(e) && e.is_capture(
                "Window capture requires a Window identifier (id or title); none provided"@,
            ),
        },
{
    match source {
        CaptureSource::FullScreen { monitor: None } => Ok(X11Target::Root),
        CaptureSource::FullScreen { monitor: Some(name) } => Ok(X11Target::Monitor(name)),
        CaptureSource::Window { identifier: Some(WindowIdentifier::Id(id)) } => Ok(
            X11Target::Window((id % 0x1_0000_0000) as u32),
        ),
        CaptureSource::Window { identifier: Some(WindowIdentifier::Title(title)) } => Ok(
            X11Target::Titled(title),
        ),
        CaptureSource::Window { identifier: None } => Err(
            FerricastError::Capture(
                "Window capture requires a Window identifier (id or title); none provided".to_owned(),
            ),
        ),
    }
}

/// A drawable and the rectangle in it that is captured.
#[derive(Clone, Copy, Debug, PartialEq, Eq, Structural)]
pub struct ResolvedSource {
    pub drawable: u32,
    pub origin_x: i16,
    pub origin_y: i16,
    pub width: u16,
    pub height: u16,
}

/// All of a drawable.
pub fn whole_drawable(drawable: u32, width: u16, height: u16) -> (source: ResolvedSource)
    ensures
        source == (ResolvedSource { drawable, origin_x: 0, origin_y: 0, width, height }),
{
    ResolvedSource { drawable, origin_x: 0, origin_y: 0, width, height }
}

/// A monitor as the server lists it.
#[derive(Debug, PartialEq, Eq)]
pub struct X11Monitor {
    pub name: String,
    pub x: i16,
    pub y: i16,
    pub width: u16,
    pub height: u16,
    pub primary: bool,
}

/// Whether the first monitor with the name is at place `i`.
pub open spec fn first_named(monitors: Seq<X11Monitor>, name: Seq<char>, i: int) -> bool {
    &&& 0 <= i < monitors.len()
    &&& monitors[i].name@ == name
    &&& forall|j: int| 0 <= j < i ==> (#[trigger] monitors[j]).name@ != name
}

/// The rectangle of the desktop that the monitor with the name shows.
pub fn monitor_source(root: u32, monitors: &[X11Monitor], name: &str) -> (out: Result<
    ResolvedSource,
    FerricastError,
>)
    ensures
        match out {
            Ok(s) => exists|i: int| #[trigger]
                first_named(monitors@, name@, i) && s == (ResolvedSource {
                    drawable: root,
                    origin_x: monitors@[i].x,
                    origin_y: monitors@[i].y,
                    width: monitors@[i].width,
                    height: monitors@[i].height,
                }),
            Err(e) => (forall|j: int|
                0 <= j < monitors@.len() ==> (#[trigger] monitors@[j]).name@ != name@)
                && e.is_capture("no XRandR monitor named "@ + debug_spelling(name@)),
        },
{
    let mut i: usize = 0;
    while i < monitors.len()
        invariant
            i <= monitors@.len(),
            forall|j: int| 0 <= j < i ==> (#[trigger] monitors@[j]).name@ != name@,
        decreases monitors@.len() - i,
    {
        if str_eq(monitors[i].name.as_str(), name) {
            assert(first_named(monitors@, name@, i as int));
            return Ok(
                ResolvedSource {
                    drawable: root,
                    origin_x: monitors[i].x,
                    origin_y: monitors[i].y,
                    width: monitors[i].width,
                    height: monitors[i].height,
                },
            );
        }
        i = i + 1;
    }
    let shown: String = debug_text(name);
    Err(FerricastError::Capture(join2("no XRandR monitor named ", shown.as_str())))
}

/// Whether the first text with the words is at place `i`.
pub open spec fn first_saying(texts: Seq<Option<String>>, words: Seq<char>, i: int) -> bool {
    &&& 0 <= i < texts.len()
    &&& text(texts[i]) == Some(words)
    &&& forall|j: int| 0 <= j < i ==> text(#[trigger] texts[j]) != Some(words)
}

/// The place of the first title with the words.
pub fn find_title(titles: &Vec<Option<String>>, words: &str) -> (at: Option<usize>)
    ensures
        match at {
            Some(i) => first_saying(titles@, words@, i as int),
            None => forall|j: int|
                0 <= j < titles@.len() ==> text(#[trigger] titles@[j]) != Some(words@),
        },
{
    let mut i: usize = 0;
    while i < titles.len()
        invariant
            i <= titles@.len(),
            forall|j: int| 0 <= j < i ==> text(#[trigger] titles@[j]) != Some(words@),
        decreases titles@.len() - i,
    {
        match &titles[i] {
            Some(t) => {
                if str_eq(t.as_str(), words) {
                    return Some(i);
                }
            },
            None => {},
        }
        i = i + 1;
    }
    None
}

/// A window and the bytes of its title, where the server gave them.
#[derive(Debug, PartialEq, Eq)]
pub struct TitledWindow {
    pub id: u32,
    pub title: Option<Vec<u8>>,
}

/// Whether the window has the title.
pub open spec fn has_title(w: TitledWindow, title: Seq<char>) -> bool {
    w.title matches Some(t) && lossy_spelling(t@) == title
}

fn window_titles(windows: &[TitledWindow]) -> (titles: Vec<Option<String>>)
    ensures
        titles@.len() == windows@.len(),
        forall|i: int, words: Seq<char>|
            0 <= i < windows@.len() ==> ((text(#[trigger] titles@[i]) == Some(words))
                == #[trigger] has_title(windows@[i], words)),
{
    let mut titles: Vec<Option<String>> = Vec::new();
    let mut i: usize = 0;
    while i < windows.len()
        invariant
            i <= windows@.len(),
            titles@.len() == i,
            forall|k: int, words: Seq<char>|
                0 <= k < i ==> ((text(#[trigger] titles@[k]) == Some(words))
                    == #[trigger] has_title(windows@[k], words)),
        decreases windows@.len() - i,
    {
        let title: Option<String> = match &windows[i].title {
            Some(bytes) => Some(lossy_text(bytes.as_slice())),
            None => None,
        };
        titles.push(title);
        i = i + 1;
    }
    titles
}

/// The first window with the title.
pub fn lookup_window_by_title(windows: &[TitledWindow], title: &str) -> (out: Result<
    u32,
    FerricastError,
>)
    ensures
        match out {
            Ok(id) => exists|i: int|
                0 <= i < windows@.len() && (#[trigger] windows@[i]).id == id && has_title(
                    windows@[i],
                    title@,
                ) && (forall|j: int|
                    0 <= j < i ==> !has_title(#[trigger] windows@[j], title@)),
            Err(e) => (forall|j: int|
                0 <= j < windows@.len() ==> !has_title(#[trigger] windows@[j], title@))
                && e.is_capture("no X11 window with _NET_WM_NAME == "@ + debug_spelling(title@)),
        },
{
    let titles: Vec<Option<String>> = window_titles(windows);
    match find_title(&titles, title) {
        Some(i) => {
            proof {
                assert(has_title(windows@[i as int], title@) == (text(titles@[i as int]) == Some(
                    title@,
                )));
                assert forall|j: int| 0 <= j < i implies !has_title(
                    #[trigger] windows@[j],
                    title@,
                ) by {
                    assert(text(titles@[j]) != Some(title@));
                }
            }
            Ok(windows[i].id)
        },
        None => {
            proof {
                assert forall|j: int| 0 <= j < windows@.len() implies !has_title(
                    #[trigger] windows@[j],
                    title@,
                ) by {
                    assert(text(titles@[j]) != Some(title@));
                }
            }
            let shown: String = debug_text(title);
            Err(
                FerricastError::Capture(
                    join2("no X11 window with _NET_WM_NAME == ", shown.as_str()),
                ),
            )
        },
    }
}

/// A pixmap format of the server.
#[derive(Clone, Copy, Debug, PartialEq, Eq, Structural)]
pub struct PixmapFormat {
    pub depth: u8,
    pub bits_per_pixel: u8,
}

/// The first format whose pixels have no padding.
pub fn pick_pixmap_format(formats: &[PixmapFormat]) -> (out: Result<PixmapFormat, FerricastError>)
    ensures
        match out {
            Ok(f) => f.depth == f.bits_per_pixel && exists|i: int|
                0 <= i < formats@.len() && #[trigger] formats@[i] == f && (forall|j: int|
                    0 <= j < i ==> (#[trigger] formats@[j]).depth != formats@[j].bits_per_pixel),
            Err(e) => (forall|j: int|
                0 <= j < formats@.len() ==> (#[trigger] formats@[j]).depth
                    != formats@[j].bits_per_pixel) && e.is_capture(
                "no matching pixmap format on this visual"@,
            ),
        },
{
    let mut i: usize = 0;
    while i < formats.len()
        invariant
            i <= formats@.len(),
            forall|j: int|
                0 <= j < i ==> (#[trigger] formats@[j]).depth != formats@[j].bits_per_pixel,
        decreases formats@.len() - i,
    {
        if formats[i].depth == formats[i].bits_per_pixel {
            return Ok(formats[i]);
        }
        i = i + 1;
    }
    Err(FerricastError::Capture("no matching pixmap format on this visual".to_owned()))
}

/// A capture from an X server.
#[derive(Debug, PartialEq, Eq)]
pub struct X11Capture {
    pub running: bool,
    pub size: (usize, usize),
    pub fps: u32,
    pub bits_per_pixel: u8,
    pub source: Option<ResolvedSource>,
}

impl X11Capture {
    /// A capture that does not run.
    pub fn new() -> (capture: Self)
        ensures
            capture == (X11Capture {
                running: false,
                size: (0, 0),
                fps: 0,
                bits_per_pixel: 0,
                source: None,
            }),
    {
        X11Capture { running: false, size: (0, 0), fps: 0, bits_per_pixel: 0, source: None }
    }

    /// The capture runs: in the size of its source, whatever size was wished
    /// for.
    pub fn started(&mut self, source: ResolvedSource, format: PixmapFormat, fps: u32)
        ensures
            *final(self) == (X11Capture {
                running: true,
                size: (source.width as usize, source.height as usize),
                fps,
                bits_per_pixel: format.bits_per_pixel,
                source: Some(source),
            }),
    {
        self.running = true;
        self.size = (source.width as usize, source.height as usize);
        self.fps = fps;
        self.bits_per_pixel = format.bits_per_pixel;
        self.source = Some(source);
    }

    /// Refuses to go on where the capture does not run.
    pub fn check_running(&self) -> (out: Result<(), FerricastError>)
        ensures
            match out {
                Ok(()) => self.running,
                Err(e) => !self.running && e.is_capture(
                    "Trying to close recorder without starting it"@,
                ),
            },
    {
        if self.running {
            Ok(())
        } else {
            Err(
                FerricastError::Capture(
                    "Trying to close recorder without starting it".to_owned(),
                ),
            )
        }
    }

    /// The frame of the bytes that the server wrote.
    pub fn frame(&self, data: Vec<u8>, timestamp_us: u64) -> (frame: RawFrame)
        requires
            self.size.0 <= u16::MAX,
            self.size.1 <= u16::MAX,
        ensures
            frame == (RawFrame {
                width: self.size.0 as u32,
                height: self.size.1 as u32,
                stride: row_bytes(self.size.0 as int, self.bits_per_pixel) as u32,
                format: PixelFormat::Bgra,
                data,
                timestamp_us,
            }),
    {
        let width: u32 = self.size.0 as u32;
        let bits: u8 = self.bits_per_pixel;
        assert(width * (bits / 8) <= 0xffff * 31) by (nonlinear_arith)
            requires
                width <= 0xffff,
                bits <= 0xff,
        ;
        RawFrame {
            width,
            height: self.size.1 as u32,
            stride: x11_stride(width, bits),
            format: PixelFormat::Bgra,
            data,
            timestamp_us,
        }
    }

    /// The capture does not run any more; its size and rate stay known.
    pub fn stopped(&mut self)
        ensures
            *final(self) == (X11Capture { running: false, ..*old(self) }),
    {
        self.running = false;
    }

    /// Whether the capture runs.
    pub fn is_running(&self) -> (running: bool)
        ensures
            running == self.running,
    {
        self.running
    }

    /// The format of the frames.
    pub fn get_pixel_format(&self) -> (format: PixelFormat)
        ensures
            format == PixelFormat::Bgra,
    {
        PixelFormat::Bgra
    }

    /// The size of the frames.
    pub fn get_screen_size(&self) -> (size: (usize, usize))
        ensures
            size == self.size,
    {
        self.size
    }

    /// The rate that was asked for.
    pub fn get_framerate(&self) -> (fps: u32)
        ensures
            fps == self.fps,
    {
        self.fps
    }
}

/// How a monitor is listed.
pub open spec fn shows_monitor(info: MonitorInfo, m: X11Monitor) -> bool {
    &&& info.id@ == m.name@
    &&& info.name@ == m.name@
    &&& info.make is None
    &&& info.model is None
    &&& info.geometry == (Geometry {
        x: m.x as i32,
        y: m.y as i32,
        width: m.width as u32,
        height: m.height as u32,
    })
    &&& info.scale == 1
    &&& info.refresh_mhz is None
    &&& info.primary == m.primary
}

/// The monitors as they are listed, in the server's order.
pub fn list_x11_monitors(monitors: &[X11Monitor]) -> (out: Vec<MonitorInfo>)
    ensures
        out@.len() == monitors@.len(),
        forall|i: int| 0 <= i < out@.len() ==> shows_monitor(#[trigger] out@[i], monitors@[i]),
{
    let mut out: Vec<MonitorInfo> = Vec::new();
    let mut i: usize = 0;
    while i < monitors.len()
        invariant
            i <= monitors@.len(),
            out@.len() == i,
            forall|k: int| 0 <= k < i ==> shows_monitor(#[trigger] out@[k], monitors@[k]),
        decreases monitors@.len() - i,
    {
        let m: &X11Monitor = &monitors[i];
        out.push(
            MonitorInfo {
                id: m.name.clone(),
                name: m.name.clone(),
                make: None,
                model: None,
                geometry: Geometry {
                    x: m.x as i32,
                    y: m.y as i32,
                    width: m.width as u32,
                    height: m.height as u32,
                },
                scale: 1,
                refresh_mhz: None,
                primary: m.primary,
            },
        );
        i = i + 1;
    }
    out
}

/// What the server told of a window: nothing where it did not answer.
#[derive(Debug, PartialEq, Eq)]
pub struct X11Window {
    pub id: u32,
    pub types: Vec<u32>,
    pub title: Option<Vec<u8>>,
    pub class: Option<Vec<u8>>,
    pub pid: Option<u32>,
    pub geometry: Option<Geometry>,
}

/// Whether the identifier is that of the monitor on which most of the
/// rectangle is; the first of several, and none where it is on none.
pub open spec fn is_home(monitors: Seq<MonitorInfo>, geo: Geometry, id: Option<Seq<char>>) -> bool {
    match id {
        Some(s) => exists|i: int|
            0 <= i < monitors.len() && s == (#[trigger] monitors[i]).id@ && shared_area(
                geo,
                monitors[i].geometry,
            ) > 0 && (forall|j: int|
                0 <= j < monitors.len() ==> shared_area(geo, (#[trigger] monitors[j]).geometry)
                    <= shared_area(geo, monitors[i].geometry)) && (forall|j: int|
                0 <= j < i ==> shared_area(geo, (#[trigger] monitors[j]).geometry) < shared_area(
                    geo,
                    monitors[i].geometry,
                )),
        None => forall|j: int|
            0 <= j < monitors.len() ==> shared_area(geo, (#[trigger] monitors[j]).geometry) == 0,
    }
}

/// How a window is listed: its number as identifier, its title and class as
/// far as they are known, and the monitor that it is on.
pub open spec fn shows_window(info: WindowInfo, w: X11Window, monitors: Seq<MonitorInfo>) -> bool {
    &&& info.id@ == decimal(w.id as nat)
    &&& info.title@ == match w.title {
        Some(t) => lossy_spelling(t@),
        None => Seq::empty(),
    }
    &&& text(info.app_id) == match w.class {
        Some(raw) => match class_of(raw@) {
            Some(c) => Some(lossy_spelling(c)),
            None => None,
        },
        None => None,
    }
    &&& info.pid == w.pid
    &&& info.geometry == w.geometry
    &&& match w.geometry {
        Some(geo) => is_home(monitors, geo, text(info.on_monitor)),
        None => info.on_monitor is None,
    }
}

fn list_x11_window(w: &X11Window, monitors: &[MonitorInfo]) -> (info: WindowInfo)
    ensures
        shows_window(info, *w, monitors@),
{
    let title: String = match &w.title {
        Some(t) => lossy_text(t.as_slice()),
        None => String::new(),
    };
    assert(w.title is None ==> title@ =~= Seq::<char>::empty());
    let app_id: Option<String> = match &w.class {
        Some(raw) => match window_class(raw.as_slice()) {
            Some(c) => Some(lossy_text(c.as_slice())),
            None => None,
        },
        None => None,
    };
    let on_monitor: Option<String> = match &w.geometry {
        Some(geo) => monitor_for(monitors, geo),
        None => None,
    };
    WindowInfo {
        id: decimal_text(w.id as u64),
        title,
        app_id,
        pid: w.pid,
        geometry: w.geometry,
        on_monitor,
    }
}

/// Whether a window belongs into a picker.
pub open spec fn is_kept(w: X11Window, normal: u32) -> bool {
    w.types@.len() == 0 || w.types@.contains(normal)
}

/// The windows that belong into a picker, in their order.
pub open spec fn kept_windows(windows: Seq<X11Window>, normal: u32) -> Seq<X11Window>
    decreases windows.len(),
{
    if windows.len() == 0 {
        Seq::empty()
    } else if is_kept(windows.last(), normal) {
        kept_windows(windows.drop_last(), normal).push(windows.last())
    } else {
        kept_windows(windows.drop_last(), normal)
    }
}

/// The windows as they are listed: those that belong into a picker, in the
/// server's order.
pub fn list_x11_windows(windows: &[X11Window], normal: u32, monitors: &[MonitorInfo]) -> (out: Vec<
    WindowInfo,
>)
    ensures
        out@.len() == kept_windows(windows@, normal).len(),
        forall|k: int|
            0 <= k < out@.len() ==> shows_window(
                #[trigger] out@[k],
                kept_windows(windows@, normal)[k],
                monitors@,
            ),
{
    let mut out: Vec<WindowInfo> = Vec::new();
    let mut i: usize = 0;
    while i < windows.len()
        invariant
            i <= windows@.len(),
            out@.len() == kept_windows(windows@.take(i as int), normal).len(),
            forall|k: int|
                0 <= k < out@.len() ==> shows_window(
                    #[trigger] out@[k],
                    kept_windows(windows@.take(i as int), normal)[k],
                    monitors@,
                ),
        decreases windows@.len() - i,
    {
        assert(windows@.take(i + 1).drop_last() =~= windows@.take(i as int));
        if keep_window(windows[i].types.as_slice(), normal) {
            out.push(list_x11_window(&windows[i], monitors));
        }
        i = i + 1;
    }
    assert(windows@.take(windows@.len() as int) =~= windows@);
    out
}

/// Windows of other types than the normal one are never listed.
pub proof fn listed_windows_are_kept(windows: Seq<X11Window>, normal: u32, k: int)
    requires
        0 <= k < kept_windows(windows, normal).len(),
    ensures
        is_kept(kept_windows(windows, normal)[k], normal),
    decreases windows.len(),
{
    if windows.len() > 0 {
        let before = kept_windows(windows.drop_last(), normal);
        if k < before.len() {
            listed_windows_are_kept(windows.drop_last(), normal, k);
        }
    }
}

/// A monitor is listed under its name, at its place, in its size.
pub proof fn monitors_are_listed_as_they_are(info: MonitorInfo, m: X11Monitor)
    requires
        shows_monitor(info, m),
    ensures
        info.id@ == m.name@,
        info.name@ == m.name@,
        info.geometry.x == m.x && info.geometry.y == m.y,
        info.geometry.width == m.width && info.geometry.height == m.height,
        info.primary == m.primary,
        info.scale == 1,
        info.make is None && info.model is None && info.refresh_mhz is None,
{
}

/// A window is listed under its number, with what the server told of it.
pub proof fn windows_are_listed_as_they_are(
    info: WindowInfo,
    w: X11Window,
    monitors: Seq<MonitorInfo>,
)
    requires
        shows_window(info, w, monitors),
    ensures
        info.id@ == decimal(w.id as nat),
        w.title matches Some(t) ==> info.title@ == lossy_spelling(t@),
        w.title is None ==> info.title@.len() == 0,
        info.pid == w.pid,
        info.geometry == w.geometry,
        w.geometry is None ==> info.on_monitor is None,
        w.class is None ==> info.app_id is None,
{
}

/// A window belongs into the picker where it names no type or the normal one;
/// those that do are listed in the server's order.
pub proof fn normal_windows_are_kept_in_order(windows: Seq<X11Window>, w: X11Window, normal: u32)
    ensures
        w.types@.len() == 0 || w.types@.contains(normal) ==> kept_windows(windows.push(w), normal)
            == kept_windows(windows, normal).push(w),
        w.types@.len() > 0 && !w.types@.contains(normal) ==> kept_windows(windows.push(w), normal)
            == kept_windows(windows, normal),
        kept_windows(Seq::empty(), normal).len() == 0,
{
    assert(windows.push(w).drop_last() =~= windows);
}

/// The bytes of a row of so many pixels.
pub open spec fn row_bytes(width: int, bits_per_pixel: u8) -> int {
    width * (bits_per_pixel / 8)
}

/// A row of pixels of 32 bits takes four bytes for each, one of 24 bits three.
pub proof fn rows_take_whole_bytes(width: int)
    ensures
        row_bytes(width, 32) == 4 * width,
        row_bytes(width, 24) == 3 * width,
        row_bytes(width, 16) == 2 * width,
{
    assert(32u8 / 8 == 4 && 24u8 / 8 == 3 && 16u8 / 8 == 2);
    assert(row_bytes(width, 32) == width * 4);
    assert(row_bytes(width, 24) == width * 3);
}

/// What the user picked is captured: the whole desktop without a choice, and
/// nothing where a window was to be picked and was not.
pub proof fn what_was_picked_is_captured(name: String, id: u64, title: String)
    ensures
        target_of(CaptureSource::FullScreen { monitor: None }) == Some(X11Target::Root),
        target_of(CaptureSource::FullScreen { monitor: Some(name) }) == Some(
            X11Target::Monitor(name),
        ),
        id <= u32::MAX ==> target_of(
            CaptureSource::Window { identifier: Some(WindowIdentifier::Id(id)) },
        ) == Some(X11Target::Window(id as u32)),
        target_of(CaptureSource::Window { identifier: Some(WindowIdentifier::Title(title)) })
            == Some(X11Target::Titled(title)),
        target_of(CaptureSource::Window { identifier: None }) is None,
{
}

/// Of several windows with a title the first one is meant, and there is only one
/// first.
pub proof fn first_title_is_meant(texts: Seq<Option<String>>, words: Seq<char>, i: int, j: int)
    requires
        first_saying(texts, words, i),
        0 <= j < texts.len(),
        texts[j] matches Some(t) && t@ == words,
    ensures
        i <= j,
        texts[i] matches Some(t) && t@ == words,
        first_saying(texts, words, j) ==> i == j,
{
    assert(text(texts[j]) == Some(words));
}

} // verus!
