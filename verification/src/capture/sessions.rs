//! The captures as their callers see them: whether they run, and what a wait
//! for a frame brings.

use vstd::prelude::*;
use vstd::string::*;

use crate::capture::format::{
    agreed_framerate, agreed_pixel_format, agreed_screen_size, rounded_rate, NegotiatedFormat,
};
use crate::capture::wayland_direct::CaptureSource;
use crate::error::FerricastError;
use crate::media::PixelFormat;
use crate::text::join2;

verus! {

/// What woke a wait for a frame.
pub enum Woken<T> {
    /// The worker's error, or its end.
    Error(Option<String>),
    /// A frame, or the end of the frames, and the frames that had queued up
    /// behind it.
    Frame(Option<T>, Vec<T>),
}

/// The newest of a frame and those that had queued up behind it.
pub open spec fn newest_of<T>(first: T, queued: Seq<T>) -> T {
    if queued.len() == 0 {
        first
    } else {
        queued.last()
    }
}

/// The newest of a frame and those that had queued up behind it.
pub fn newest<T>(first: T, queued: Vec<T>) -> (frame: T)
    ensures
        frame == newest_of(first, queued@),
{
    let mut queued: Vec<T> = queued;
    match queued.pop() {
        Some(last) => last,
        None => first,
    }
}

/// Capture through the desktop portal.
pub struct PipeWireCapture {
    pub running: bool,
    /// The format, once it is agreed on.
    pub format: Option<NegotiatedFormat>,
}

impl PipeWireCapture {
    /// A capture that does not run.
    pub fn new() -> (capture: Self)
        ensures
            !capture.running,
            capture.format is None,
    {
        PipeWireCapture { running: false, format: None }
    }

    /// Begins a start: a capture that runs refuses; else the format of an
    /// earlier run is forgotten.
    pub fn begin_start(&mut self) -> (out: Result<(), FerricastError>)
        ensures
            match out {
                Ok(()) => !old(self).running && *final(self) == (PipeWireCapture {
                    running: false,
                    format: None,
                }),
                Err(e) => old(self).running && *final(self) == *old(self) && e.is_capture(
                    "PipeWire capture already running"@,
                ),
            },
    {
        if self.running {
            return Err(FerricastError::Capture("PipeWire capture already running".to_owned()));
        }
        self.format = None;
        Ok(())
    }

    /// The worker runs.
    pub fn started(&mut self)
        ensures
            *final(self) == (PipeWireCapture { running: true, ..*old(self) }),
    {
        self.running = true;
    }

    /// What a wait for a frame brings: errors come first, and of several
    /// frames only the newest counts.
    pub fn next_frame<T>(&self, woken: Woken<T>) -> (out: Result<T, FerricastError>)
        ensures
            if !self.running {
                out matches Err(e) && e.is_capture("capture not started"@)
            } else {
                match woken {
                    Woken::Error(Some(m)) => out matches Err(e) && e.is_capture(
                        "PipeWire: "@ + m@,
                    ),
                    Woken::Error(None) => out matches Err(e) && e.is_capture(
                        "PipeWire: "@ + "PipeWire worker exited"@,
                    ),
                    Woken::Frame(None, _) => out matches Err(e) && e.is_capture(
                        "PipeWire stream ended"@,
                    ),
                    Woken::Frame(Some(f), queued) => out == Ok::<T, FerricastError>(
                        newest_of(f, queued@),
                    ),
                }
            },
    {
        if !self.running {
            return Err(FerricastError::Capture("capture not started".to_owned()));
        }
        match woken {
            Woken::Error(Some(m)) => Err(FerricastError::Capture(join2("PipeWire: ", m.as_str()))),
            Woken::Error(None) => Err(
                FerricastError::Capture(join2("PipeWire: ", "PipeWire worker exited")),
            ),
            Woken::Frame(None, _) => Err(
                FerricastError::Capture("PipeWire stream ended".to_owned()),
            ),
            Woken::Frame(Some(f), queued) => Ok(newest(f, queued)),
        }
    }

    /// Ends the capture: whether a worker has to be shut down.
    pub fn stop(&mut self) -> (worker: bool)
        ensures
            worker == old(self).running,
            *final(self) == (PipeWireCapture { running: false, format: None }),
    {
        let worker: bool = self.running;
        self.running = false;
        self.format = None;
        worker
    }

    /// Whether the capture runs.
    pub fn is_running(&self) -> (running: bool)
        ensures
            running == self.running,
    {
        self.running
    }

    /// The format of the frames; the usual one until one is agreed on.
    pub fn get_pixel_format(&self) -> (format: PixelFormat)
        ensures
            format == match self.format {
                Some(f) => f.pixel_format,
                None => PixelFormat::Bgra,
            },
    {
        agreed_pixel_format(&self.format)
    }

    /// The size of the frames; nothing until it is agreed on.
    pub fn get_screen_size(&self) -> (size: (usize, usize))
        ensures
            size == match self.format {
                Some(f) => (f.width as usize, f.height as usize),
                None => (0, 0),
            },
    {
        agreed_screen_size(&self.format)
    }

    /// The agreed rate, rounded to whole frames a second; zero until there is
    /// one.
    pub fn get_framerate(&self) -> (rate: u32)
        ensures
            rate == match self.format {
                Some(f) => rounded_rate(f.framerate_num, f.framerate_denom),
                None => 0,
            },
    {
        agreed_framerate(&self.format)
    }
}

/// Sound capture.
#[derive(Debug, PartialEq, Eq)]
pub struct PipeWireAudioCapture {
    /// The rate and the channels of a capture that runs; zeros until they are
    /// agreed on.
    pub negotiated: Option<(u32, u16)>,
}

impl PipeWireAudioCapture {
    /// A capture that does not run.
    pub fn new() -> (capture: Self)
        ensures
            capture.negotiated is None,
    {
        PipeWireAudioCapture { negotiated: None }
    }

    /// Begins a start: a capture that runs refuses.
    pub fn begin_start(&self) -> (out: Result<(), FerricastError>)
        ensures
            match out {
                Ok(()) => self.negotiated is None,
                Err(e) => self.negotiated is Some && e.is_capture(
                    "PipeWire audio capture already running"@,
                ),
            },
    {
        match self.negotiated {
            Some(_) => Err(
                FerricastError::Capture("PipeWire audio capture already running".to_owned()),
            ),
            None => Ok(()),
        }
    }

    /// The worker runs; nothing is agreed on.
    pub fn started(&mut self)
        ensures
            final(self).negotiated == Some((0u32, 0u16)),
    {
        self.negotiated = Some((0, 0));
    }

    /// The rate and the channels of a capture that runs are agreed on.
    pub fn agreed(&mut self, rate: u32, channels: u16)
        ensures
            final(self).negotiated == match old(self).negotiated {
                Some(_) => Some((rate, channels)),
                None => None,
            },
    {
        if self.negotiated.is_some() {
            self.negotiated = Some((rate, channels));
        }
    }

    /// What a wait for a frame brings: errors come first, and no frame is
    /// passed over.
    pub fn next_frame<T>(&self, woken: Result<Option<T>, Option<String>>) -> (out: Result<
        T,
        FerricastError,
    >)
        ensures
            if self.negotiated is None {
                out matches Err(e) && e.is_capture("audio capture not started"@)
            } else {
                match woken {
                    Err(Some(m)) => out matches Err(e) && e.is_capture(m@),
                    Err(None) => out matches Err(e) && e.is_capture("audio worker exited"@),
                    Ok(None) => out matches Err(e) && e.is_capture("audio frame channel closed"@),
                    Ok(Some(f)) => out == Ok::<T, FerricastError>(f),
                }
            },
    {
        if self.negotiated.is_none() {
            return Err(FerricastError::Capture("audio capture not started".to_owned()));
        }
        match woken {
            Err(Some(m)) => Err(FerricastError::Capture(m)),
            Err(None) => Err(FerricastError::Capture("audio worker exited".to_owned())),
            Ok(None) => Err(FerricastError::Capture("audio frame channel closed".to_owned())),
            Ok(Some(f)) => Ok(f),
        }
    }

    /// Ends the capture: whether a worker has to be shut down.
    pub fn stop(&mut self) -> (worker: bool)
        ensures
            worker == (old(self).negotiated is Some),
            final(self).negotiated is None,
    {
        let worker: bool = self.negotiated.is_some();
        self.negotiated = None;
        worker
    }

    /// Whether the capture runs.
    pub fn is_running(&self) -> (running: bool)
        ensures
            running == (self.negotiated is Some),
    {
        self.negotiated.is_some()
    }

    /// The agreed rate, zero where there is none.
    pub fn sample_rate(&self) -> (rate: u32)
        ensures
            rate == match self.negotiated {
                Some(n) => n.0,
                None => 0,
            },
    {
        match self.negotiated {
            Some(n) => n.0,
            None => 0,
        }
    }

    /// The agreed channels, zero where there are none.
    pub fn channels(&self) -> (channels: u16)
        ensures
            channels == match self.negotiated {
                Some(n) => n.1,
                None => 0,
            },
    {
        match self.negotiated {
            Some(n) => n.1,
            None => 0,
        }
    }
}

/// Capture straight from the compositor.
#[derive(Debug, PartialEq, Eq)]
pub struct WaylandDirectCapture {
    pub running: bool,
    pub fps: u32,
    pub size: (usize, usize),
}

impl WaylandDirectCapture {
    /// A capture that does not run.
    pub fn new() -> (capture: Self)
        ensures
            capture == (WaylandDirectCapture { running: false, fps: 0, size: (0, 0) }),
    {
        WaylandDirectCapture { running: false, fps: 0, size: (0, 0) }
    }

    /// Takes the size that the worker told, if it did so in time. A rate of
    /// zero counts as one.
    pub fn started(&mut self, size: Option<(u32, u32)>, fps: u32) -> (out: Result<
        (),
        FerricastError,
    >)
        ensures
            match out {
                Ok(()) => size matches Some(s) && *final(self) == (WaylandDirectCapture {
                    running: true,
                    fps: if fps == 0 {
                        1
                    } else {
                        fps
                    },
                    size: (s.0 as usize, s.1 as usize),
                }),
                Err(e) => size is None && *final(self) == *old(self) && e.is_capture(
                    "wayland-direct: compositor didn't respond within 5s"@,
                ),
            },
    {
        match size {
            Some(s) => {
                self.running = true;
                self.fps = if fps == 0 {
                    1
                } else {
                    fps
                };
                self.size = (s.0 as usize, s.1 as usize);
                Ok(())
            },
            None => Err(
                FerricastError::Capture(
                    "wayland-direct: compositor didn't respond within 5s".to_owned(),
                ),
            ),
        }
    }

    /// What a wait for a frame brings.
    pub fn next_frame<T>(&self, received: Option<T>) -> (out: Result<T, FerricastError>)
        ensures
            if !self.running {
                out matches Err(e) && e.is_capture("wayland-direct: not started"@)
            } else {
                match received {
                    Some(f) => out == Ok::<T, FerricastError>(f),
                    None => out matches Err(e) && e.is_capture("wayland-direct: worker hung up"@),
                }
            },
    {
        if !self.running {
            return Err(FerricastError::Capture("wayland-direct: not started".to_owned()));
        }
        match received {
            Some(f) => Ok(f),
            None => Err(FerricastError::Capture("wayland-direct: worker hung up".to_owned())),
        }
    }

    /// Ends the capture: whether a worker has to be shut down. Size and rate
    /// stay known.
    pub fn stop(&mut self) -> (worker: bool)
        ensures
            worker == old(self).running,
            *final(self) == (WaylandDirectCapture { running: false, ..*old(self) }),
    {
        let worker: bool = self.running;
        self.running = false;
        worker
    }

    /// Whether the capture runs.
    pub fn is_running(&self) -> (running: bool)
        ensures
            running == self.running,
    {
        self.running
    }

    /// The format of the frames.
    pub fn get_pixel_format(&self) -> (format: PixelFormat)
        ensures
            format == PixelFormat::Bgra,
    {
        PixelFormat::Bgra
    }

    /// The size of the frames.
    pub fn get_screen_size(&self) -> (size: (usize, usize))
        ensures
            size == self.size,
    {
        self.size
    }

    /// The rate of the frames.
    pub fn get_framerate(&self) -> (fps: u32)
        ensures
            fps == self.fps,
    {
        self.fps
    }
}

/// What the desktop portal is asked for.
#[derive(Clone, Copy, Debug, PartialEq, Eq, Structural)]
pub struct PortalRequest {
    /// A window in place of a monitor.
    pub window: bool,
    /// The pointer as part of the picture.
    pub cursor_embedded: bool,
}

/// What the desktop portal is asked for.
pub fn portal_request(source: &CaptureSource, show_cursor: bool) -> (request: PortalRequest)
    ensures
        request.window == (*source is Window),
        request.cursor_embedded == show_cursor,
{
    let window: bool = match source {
        CaptureSource::FullScreen { monitor: _ } => false,
        CaptureSource::Window { identifier: _ } => true,
    };
    PortalRequest { window, cursor_embedded: show_cursor }
}

/// A stream that the portal grants.
#[derive(Clone, Copy, Debug, PartialEq, Eq)]
pub struct PortalStream {
    pub node_id: u32,
    pub size_hint: Option<(u32, u32)>,
    pub position_hint: Option<(i32, i32)>,
}

/// The first stream that the portal grants.
pub fn first_stream(streams: &[PortalStream]) -> (out: Result<PortalStream, FerricastError>)
    ensures
        match out {
            Ok(s) => streams@.len() > 0 && s == streams@[0],
            Err(e) => streams@.len() == 0 && e.is_capture("portal returned no streams"@),
        },
{
    if streams.len() == 0 {
        Err(FerricastError::Capture("portal returned no streams".to_owned()))
    } else {
        Ok(streams[0])
    }
}

/// Who lists monitors and windows.
#[derive(Clone, Copy, Debug, PartialEq, Eq, Structural)]
pub enum Enumerator {
    Wayland,
    X11,
    /// Lists nothing.
    Stub,
}

/// Who lists monitors and windows: the compositor in a session of Wayland,
/// else the X server where there is a display, else nobody. `failed` is the
/// one that could not be opened; the next one takes its place.
pub open spec fn enumerator_after(
    wayland: bool,
    display: bool,
    failed: Option<Enumerator>,
) -> Enumerator {
    if wayland && failed is None {
        Enumerator::Wayland
    } else if display && (failed is None || failed == Some(Enumerator::Wayland)) {
        Enumerator::X11
    } else {
        Enumerator::Stub
    }
}

/// Who lists monitors and windows, after `failed` could not be opened.
pub fn auto_enumerator(wayland: bool, display: bool, failed: Option<Enumerator>) -> (chosen:
    Enumerator)
    ensures
        chosen == enumerator_after(wayland, display, failed),
{
    let fell_through: bool = match failed {
        Some(Enumerator::Wayland) => true,
        Some(_) => false,
        None => true,
    };
    if wayland && failed.is_none() {
        Enumerator::Wayland
    } else if display && fell_through {
        Enumerator::X11
    } else {
        Enumerator::Stub
    }
}

/// Whatever cannot be opened, the choice comes to an end: after at most two
/// failures nobody lists anything, and that never fails.
pub proof fn enumerators_come_to_an_end(wayland: bool, display: bool)
    ensures
        ({
            let first = enumerator_after(wayland, display, None);
            let second = enumerator_after(wayland, display, Some(first));
            enumerator_after(wayland, display, Some(second)) == Enumerator::Stub
        }),
{
}

/// The compositor lists where there is one, the X server where there is only
/// that or where the compositor could not be asked, and nobody otherwise.
pub proof fn who_lists_depends_on_what_is_there(wayland: bool, display: bool)
    ensures
        enumerator_after(true, display, None) == Enumerator::Wayland,
        enumerator_after(false, true, None) == Enumerator::X11,
        enumerator_after(false, false, None) == Enumerator::Stub,
        enumerator_after(wayland, true, Some(Enumerator::Wayland)) == Enumerator::X11,
        enumerator_after(wayland, false, Some(Enumerator::Wayland)) == Enumerator::Stub,
        enumerator_after(wayland, display, Some(Enumerator::X11)) == Enumerator::Stub,
        enumerator_after(wayland, display, Some(Enumerator::Stub)) == Enumerator::Stub,
{
}

/// The frame that came last is the newest, whatever came before it.
pub proof fn last_frame_is_the_newest<T>(first: T, queued: Seq<T>, last: T)
    ensures
        newest_of(first, Seq::<T>::empty()) == first,
        newest_of(first, queued.push(last)) == last,
{
}

} // verus!
