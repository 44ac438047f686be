use ferricast::capture::audio::{speaker_positions, AudioStream};
use ferricast::capture::encoder::{EncoderConfig, PassthroughEncoder};
use ferricast::capture::format::{
    accepted_data_types, agreed_framerate, initial_enum_format_list, offer_params,
    supported_formats, GpuFormat, NegotiatedFormat, VideoFormat, VideoInfo,
    DRM_FORMAT_MOD_INVALID, DRM_FORMAT_MOD_LINEAR, MAX_OFFERED_FPS, MAX_OFFERED_SIDE,
    MIN_OFFERED_FPS, MIN_OFFERED_SIDE,
};
use ferricast::capture::native::{is_wayland_session, Backend, Compiled, NativeCapture};
use ferricast::capture::sessions::{
    auto_enumerator, first_stream, newest, portal_request, Enumerator, PipeWireAudioCapture,
    PipeWireCapture, PortalStream, WaylandDirectCapture, Woken,
};
use ferricast::capture::sources::{
    desktop_capabilities, keep_window, monitor_for, property_change, window_class, Desktop,
    EnumerationCapability, Geometry, LogicalEvent, MonitorInfo, OutputEvent, SourceChange,
    ToplevelEvent, ToplevelProtocol,
};
use ferricast::capture::stream::{
    accept_format, cpu_frame, plan_frame, read_cpu_buffer, spa_format_to_pixel, DataType,
    FramePlan, GuessedFormat, PlaneInfo,
};
use ferricast::capture::thumb::{
    capture_buffer, captured_picture, channels, encode_png, find_turned_output, frame_came,
    monitor_orientation, thumb_format, thumbnail_fits, upright, BufferInfo, CaptureEvent, CaptureKind,
    FrameStatus, Orientation, Picture, Rgba, Transform, TurnedOutput, WindowCapture,
};
use ferricast::capture::vulkan::{
    copyable_modifiers, gpu_formats, import_format, pick_memory_type, pick_physical_device,
    pick_queue_family, staging_size, staging_too_small, video_format_to_vk, BufferId, CacheLookup,
    ImageShape, ImportCache, ImportedImage, ModifierProperties, PendingMeta, PhysicalDevice,
    SubmitRing, VkFormat, MAX_IMPORT_CACHE,
};
use ferricast::capture::wayland_direct::{
    alloc_attempt, alloc_failed, decode_dev_t, direct_output, dmabuf_for_frame, find_output,
    frame_period_us, modifier_candidates, modifier_halves, name_first_unnamed, name_output,
    offer_dmabuf, offer_shm, offered_fourcc, pick_render_node, render_node_paths,
    resolve_feedback, shm_layout, wl_shm_format, wl_shm_format_to_pixel, AllocAttempt,
    AllocatedBuffer, CaptureSource, DmabufHealth, DmabufOffer, Feedback, FrameInfo, FrameWorker,
    NamedOutput, RenderNode, ShmFormat, ShmOffer, WindowIdentifier, WorkerAction,
};
use ferricast::capture::x11::{
    find_title, list_x11_monitors, list_x11_windows, lookup_window_by_title, monitor_source,
    pick_pixmap_format, whole_drawable, x11_target, PixmapFormat, TitledWindow, X11Capture,
    X11Monitor, X11Target, X11Window,
};
use ferricast::error::{FerricastError, SourceError};
use ferricast::media::{AudioCodec, Codec, PixelFormat, RawFrame};

fn capture_text(e: FerricastError) -> String {
    match e {
        FerricastError::Capture(m) => m,
        other => panic!("expected a capture error, got {other:?}"),
    }
}

fn backend_text(e: SourceError) -> String {
    match e {
        SourceError::Backend(m) => m,
        other => panic!("expected a back end's error, got {other:?}"),
    }
}

fn raw_frame(n: u8) -> RawFrame {
    RawFrame {
        width: 1,
        height: 1,
        stride: 4,
        format: PixelFormat::Bgra,
        data: vec![n; 4],
        timestamp_us: n as u64,
    }
}

#[test]
fn key_frames_come_at_the_interval() {
    let mut encoder = PassthroughEncoder::new(Codec::H264);
    let config = EncoderConfig {
        codec: Codec::Vp8,
        keyframe_interval: 2,
    };
    assert!(encoder.configure(&config).is_ok());
    assert_eq!(encoder.codec(), Codec::Vp8);
    let keys: Vec<bool> = (0..5)
        .map(|n| {
            let frame = encoder.encode(&raw_frame(n)).unwrap();
            assert_eq!(frame.data, vec![n; 4]);
            assert_eq!(frame.timestamp_us, n as u64);
            frame.is_keyframe
        })
        .collect();
    assert_eq!(keys, vec![true, false, true, false, true]);
    assert!(encoder.flush().unwrap().is_empty());
}

#[test]
fn sound_is_stamped_by_samples() {
    let mut stream = AudioStream::new(48_000, 2);
    let bytes = vec![7u8; 4 * 48];
    let first = stream.process(&bytes, 0, bytes.len(), false, 1_000).unwrap();
    assert_eq!(first.timestamp_us, 1_000);
    assert_eq!(first.codec, AudioCodec::Pcm);
    assert_eq!(first.sample_rate, 48_000);
    assert!(!stream.agree(44_100, 2));
    let second = stream.process(&bytes, 0, bytes.len(), true, 9_999_999).unwrap();
    assert_eq!(second.timestamp_us, 2_000);
    assert_eq!(second.data, vec![0u8; 4 * 48]);
    assert_eq!(second.sample_rate, 44_100);
    assert!(stream.process(&bytes, 190, 10, false, 0).is_none());
    assert!(stream.process(&bytes, 0, 0, false, 0).is_none());
    let cut = stream.process(&bytes, 180, 100, false, 0).unwrap();
    assert_eq!(cut.data.len(), 12);
    assert_eq!(speaker_positions(1, 3, 4), vec![3]);
    assert_eq!(speaker_positions(2, 3, 4), vec![3, 4]);
}

fn info(format: VideoFormat, modifier: u64) -> VideoInfo {
    VideoInfo {
        format,
        format_name: "name".to_string(),
        width: 640,
        height: 480,
        framerate_num: 24_000,
        framerate_denom: 1_001,
        modifier,
    }
}

#[test]
fn formats_are_negotiated() {
    assert_eq!(
        supported_formats(),
        vec![
            VideoFormat::BGRx,
            VideoFormat::BGRA,
            VideoFormat::RGBx,
            VideoFormat::RGBA
        ]
    );
    let mut agreed: Option<NegotiatedFormat> = None;
    assert!(accept_format(&mut agreed, &info(VideoFormat::BGRx, 0)).unwrap());
    assert!(!accept_format(&mut agreed, &info(VideoFormat::BGRx, 0)).unwrap());
    assert!(accept_format(&mut agreed, &info(VideoFormat::RGBA, 0)).unwrap());
    assert!(accept_format(&mut agreed, &info(VideoFormat::Other(99), 0)).is_err());
    assert_eq!(agreed_framerate(&agreed), 24);
    assert_eq!(agreed.unwrap().pixel_format, PixelFormat::Rgba);
    assert_eq!(accepted_data_types(2, 1, 3), 0b1110);
    assert_eq!(spa_format_to_pixel(25), Some(PixelFormat::Nv12));
    assert_eq!(spa_format_to_pixel(99), None);
}

#[test]
fn shared_memory_is_offered_last() {
    let params = offer_params(None, 0);
    assert_eq!((params.default_width, params.default_height, params.default_fps), (1920, 1080, 1));
    let gpu = [GpuFormat {
        format: VideoFormat::BGRA,
        modifiers: vec![5, 6],
    }];
    let offers = initial_enum_format_list(&offer_params(Some((800, 600)), 30), &gpu);
    assert_eq!(offers.len(), 2);
    assert_eq!(offers[0].formats, vec![VideoFormat::BGRA]);
    assert!(offers[0].modifiers.contains(&5) && offers[0].modifiers.contains(&6));
    assert!(offers[1].modifiers.is_empty());
    assert_eq!(offers[1].formats, supported_formats());
    assert_eq!((offers[1].width, offers[1].height, offers[1].fps), (800, 600, 30));
}

fn negotiated(modifier: Option<u64>) -> Option<NegotiatedFormat> {
    Some(NegotiatedFormat {
        width: 4,
        height: 2,
        pixel_format: PixelFormat::Bgra,
        spa_format: VideoFormat::BGRA,
        framerate_num: 30,
        framerate_denom: 1,
        modifier,
    })
}

fn plane(data_type: DataType) -> Option<PlaneInfo> {
    Some(PlaneInfo {
        data_type,
        chunk_size: 32,
        chunk_offset: 0,
        stride: 16,
        fd: 9,
        maxsize: 32,
    })
}

#[test]
fn mapped_descriptors_are_cut() {
    let held = |fd: i64| plane(DataType::DmaBuf).map(|p| PlaneInfo { fd, ..p });
    let plan = |fd: i64| plan_frame(&negotiated(None), false, &held(fd));
    assert!(matches!(plan(9), FramePlan::MapAndRead { .. }));
    assert_eq!(plan(-1), FramePlan::BadDescriptor);
    assert_eq!(plan(0x8000_0000), FramePlan::BadDescriptor);
    assert!(matches!(plan(-0x1_0000_0000), FramePlan::MapAndRead { .. }));
    assert_eq!(
        plan_frame(&negotiated(Some(77)), true, &held(-0x1_0000_0000)),
        FramePlan::BadDescriptor
    );
}

#[test]
fn offers_have_their_ranges() {
    assert_eq!((MIN_OFFERED_SIDE, MAX_OFFERED_SIDE), (1, 8192));
    assert_eq!((MIN_OFFERED_FPS, MAX_OFFERED_FPS), (0, 1000));
}

#[test]
fn rows_count_on_the_plain_path_only() {
    let mut info: Option<FrameInfo> = None;
    offer_shm(&mut info, 0, 8, u32::MAX, 32);
    offer_dmabuf(&mut info, 0x3432_5241, 8, u32::MAX);
    let mut worker = FrameWorker::new(true, true);
    assert!(matches!(worker.announced(info).1, WorkerAction::MakeShared(_)));
    assert!(matches!(worker.allocated(true), WorkerAction::CopyShared));
}

#[test]
fn buffers_are_read_by_kind() {
    assert_eq!(plan_frame(&None, true, &plane(DataType::MemFd)), FramePlan::WaitForFormat);
    assert_eq!(plan_frame(&negotiated(None), true, &None), FramePlan::NoPlane);
    assert_eq!(
        plan_frame(&negotiated(None), false, &plane(DataType::MemPtr)),
        FramePlan::ReadMapped {
            stride: 16,
            offset: 0,
            size: 32
        }
    );
    assert_eq!(
        plan_frame(&negotiated(Some(77)), false, &plane(DataType::DmaBuf)),
        FramePlan::NoImporter
    );
    assert_eq!(
        plan_frame(&negotiated(Some(77)), true, &plane(DataType::DmaBuf)),
        FramePlan::Import {
            stride: 16,
            offset: 0,
            modifier: 77
        }
    );
    assert_eq!(
        plan_frame(&negotiated(None), true, &plane(DataType::Other)),
        FramePlan::UnexpectedType
    );
    let bytes: Vec<u8> = (0..40).collect();
    assert_eq!(read_cpu_buffer(&bytes, 2, 3), Some(vec![2, 3, 4]));
    let frame = cpu_frame(&negotiated(None).unwrap(), 16, vec![1], 5);
    assert_eq!((frame.width, frame.stride, frame.timestamp_us), (4, 16, 5));
    let mut guessed = GuessedFormat {
        width: 0,
        height: 0,
        format: 0,
    };
    let guess = guessed.frame(&bytes, 32, 16, 1).unwrap();
    assert_eq!((guess.width, guess.height, guess.data.len()), (4, 2, 32));
    assert!(guessed.frame(&bytes, 0, 16, 1).is_none());
    guessed.forget_size();
    assert_eq!(guessed.width, 0);
}

#[test]
fn back_ends_are_chosen() {
    let both = Compiled {
        wayland_direct: true,
        pipewire: true,
    };
    let mut capture = NativeCapture::new(None, Some("wayland"), both);
    assert_eq!(capture.backend, Backend::WaylandDirect);
    assert!(capture.start_failed());
    assert_eq!(capture.backend, Backend::Pipewire);
    assert!(!capture.start_failed());
    assert_eq!(NativeCapture::new(Some("pipewire"), None, both).backend, Backend::Pipewire);
    assert!(is_wayland_session(false, Some("Wayland")));
    assert!(is_wayland_session(true, None));
    assert!(!is_wayland_session(false, Some("x11")));
    assert_eq!(auto_enumerator(true, true, None), Enumerator::Wayland);
    assert_eq!(auto_enumerator(true, true, Some(Enumerator::Wayland)), Enumerator::X11);
    assert_eq!(auto_enumerator(true, true, Some(Enumerator::X11)), Enumerator::Stub);
    assert_eq!(auto_enumerator(false, false, None), Enumerator::Stub);
}

#[test]
fn waits_for_frames_bring_the_newest() {
    let mut capture = PipeWireCapture::new();
    let early: Woken<u8> = Woken::Frame(Some(1), vec![]);
    assert_eq!(capture_text(capture.next_frame(early).unwrap_err()), "capture not started");
    assert!(capture.begin_start().is_ok());
    capture.started();
    assert_eq!(
        capture_text(capture.begin_start().unwrap_err()),
        "PipeWire capture already running"
    );
    assert_eq!(capture.next_frame(Woken::Frame(Some(1), vec![2, 3])).unwrap(), 3);
    assert_eq!(newest(1, vec![]), 1);
    let ended: Woken<u8> = Woken::Frame(None, vec![]);
    assert_eq!(capture_text(capture.next_frame(ended).unwrap_err()), "PipeWire stream ended");
    let failed: Woken<u8> = Woken::Error(Some("boom".to_string()));
    assert_eq!(capture_text(capture.next_frame(failed).unwrap_err()), "PipeWire: boom");
    let exited: Woken<u8> = Woken::Error(None);
    assert_eq!(
        capture_text(capture.next_frame(exited).unwrap_err()),
        "PipeWire: PipeWire worker exited"
    );
    assert_eq!(capture.get_screen_size(), (0, 0));
    assert_eq!(capture.get_pixel_format(), PixelFormat::Bgra);
    assert_eq!(capture.get_framerate(), 0);
    assert!(capture.stop());
    assert!(!capture.is_running());
}

#[test]
fn sound_captures_pass_no_frame_over() {
    let mut capture = PipeWireAudioCapture::new();
    assert_eq!(
        capture_text(capture.next_frame(Ok(Some(1))).unwrap_err()),
        "audio capture not started"
    );
    assert!(capture.begin_start().is_ok());
    capture.started();
    assert_eq!(
        capture_text(capture.begin_start().unwrap_err()),
        "PipeWire audio capture already running"
    );
    assert_eq!(capture.sample_rate(), 0);
    capture.agreed(44_100, 2);
    assert_eq!((capture.sample_rate(), capture.channels()), (44_100, 2));
    assert_eq!(capture.next_frame(Ok(Some(5))).unwrap(), 5);
    let closed: Result<Option<u8>, Option<String>> = Ok(None);
    assert_eq!(
        capture_text(capture.next_frame(closed).unwrap_err()),
        "audio frame channel closed"
    );
    let exited: Result<Option<u8>, Option<String>> = Err(None);
    assert_eq!(capture_text(capture.next_frame(exited).unwrap_err()), "audio worker exited");
    assert!(capture.stop());
    assert!(!capture.is_running());
}

#[test]
fn direct_captures_start_with_a_size() {
    let mut capture = WaylandDirectCapture::new();
    assert_eq!(
        capture_text(capture.started(None, 30).unwrap_err()),
        "wayland-direct: compositor didn't respond within 5s"
    );
    assert!(capture.started(Some((800, 600)), 0).is_ok());
    assert_eq!(capture.get_framerate(), 1);
    assert_eq!(capture.get_screen_size(), (800, 600));
    let gone: Option<u8> = None;
    assert_eq!(
        capture_text(capture.next_frame(gone).unwrap_err()),
        "wayland-direct: worker hung up"
    );
    assert!(capture.stop());
    assert_eq!(
        capture_text(capture.next_frame(Some(1)).unwrap_err()),
        "wayland-direct: not started"
    );
    assert_eq!(capture.get_pixel_format(), PixelFormat::Bgra);
}

#[test]
fn portals_grant_the_first_stream() {
    let window = CaptureSource::Window { identifier: None };
    let request = portal_request(&window, true);
    assert!(request.window && request.cursor_embedded);
    assert!(!portal_request(&CaptureSource::FullScreen { monitor: None }, false).window);
    let stream = PortalStream {
        node_id: 4,
        size_hint: None,
        position_hint: None,
    };
    assert_eq!(first_stream(&[stream]).unwrap(), stream);
    assert_eq!(capture_text(first_stream(&[]).unwrap_err()), "portal returned no streams");
}

#[test]
fn desktops_follow_events() {
    let mut desktop = Desktop::new();
    desktop.output_added(1);
    desktop.output_event(
        1,
        OutputEvent::Name {
            name: "DP-1".to_string(),
        },
    );
    desktop.logical_event(
        1,
        LogicalEvent::Size {
            width: 1920,
            height: 1080,
        },
    );
    desktop.output_event(1, OutputEvent::Done);
    desktop.toplevel_added(ToplevelProtocol::Wlr, 5);
    desktop.toplevel_event(
        ToplevelProtocol::Wlr,
        5,
        ToplevelEvent::Title {
            title: "Editor".to_string(),
        },
    );
    desktop.toplevel_event(ToplevelProtocol::Wlr, 5, ToplevelEvent::OutputEnter { output: 1 });
    desktop.toplevel_event(ToplevelProtocol::Wlr, 5, ToplevelEvent::Done);
    let (snapshot, changes) = desktop.recompute().unwrap();
    assert_eq!(snapshot.monitors.len(), 1);
    assert_eq!(snapshot.monitors[0].id, "DP-1");
    assert_eq!(snapshot.monitors[0].geometry.width, 1920);
    assert_eq!(snapshot.windows.len(), 1);
    assert_eq!(snapshot.windows[0].title, "Editor");
    assert_eq!(snapshot.windows[0].on_monitor.as_deref(), Some("DP-1"));
    assert_eq!(changes, vec![SourceChange::Monitors, SourceChange::Windows]);
    assert!(desktop.recompute().is_none());
    desktop.toplevel_event(ToplevelProtocol::Wlr, 5, ToplevelEvent::Closed);
    let (after, changes) = desktop.recompute().unwrap();
    assert!(after.windows.is_empty());
    assert_eq!(changes, vec![SourceChange::Windows]);
}

fn monitor(id: &str, x: i32, width: u32) -> MonitorInfo {
    MonitorInfo {
        id: id.to_string(),
        name: id.to_string(),
        make: None,
        model: None,
        geometry: Geometry {
            x,
            y: 0,
            width,
            height: 100,
        },
        scale: 1,
        refresh_mhz: None,
        primary: false,
    }
}

#[test]
fn windows_belong_to_their_largest_monitor() {
    let monitors = [monitor("A", 0, 100), monitor("B", 100, 100)];
    let at = |x: i32| Geometry {
        x,
        y: 10,
        width: 50,
        height: 20,
    };
    assert_eq!(monitor_for(&monitors, &at(60)).as_deref(), Some("A"));
    assert_eq!(monitor_for(&monitors, &at(75)).as_deref(), Some("A"));
    assert_eq!(monitor_for(&monitors, &at(80)).as_deref(), Some("B"));
    assert_eq!(monitor_for(&monitors, &at(500)), None);
    let wide = Geometry {
        x: -10,
        y: 0,
        width: 2_147_483_653,
        height: 10,
    };
    assert_eq!(monitor_for(&monitors[..1], &wide).as_deref(), Some("A"));
    assert_eq!(window_class(b"inst\0Class\0"), Some(b"Class".to_vec()));
    assert_eq!(window_class(b"inst\0"), Some(b"inst".to_vec()));
    assert_eq!(window_class(b"\0\0"), None);
    assert!(keep_window(&[], 4));
    assert!(keep_window(&[1, 4], 4));
    assert!(!keep_window(&[1], 4));
    assert_eq!(property_change(1, 1, 2, 3), Some(SourceChange::Windows));
    assert_eq!(property_change(4, 1, 2, 3), None);
}

#[test]
fn windows_are_listed_from_the_server() {
    let monitors = list_x11_monitors(&[X11Monitor {
        name: "HDMI-1".to_string(),
        x: 0,
        y: 0,
        width: 100,
        height: 100,
        primary: true,
    }]);
    assert!(monitors[0].primary);
    assert_eq!(monitors[0].id, "HDMI-1");
    let window = |id: u32, types: Vec<u32>| X11Window {
        id,
        types,
        title: Some(b"caf\xc3\xa9 \xff".to_vec()),
        class: Some(b"a\0B\0".to_vec()),
        pid: Some(12),
        geometry: Some(Geometry {
            x: 10,
            y: 10,
            width: 10,
            height: 10,
        }),
    };
    let listed = list_x11_windows(&[window(7, vec![]), window(8, vec![3])], 4, &monitors);
    assert_eq!(listed.len(), 1);
    assert_eq!(listed[0].id, "7");
    assert_eq!(listed[0].title, "café \u{fffd}");
    assert_eq!(listed[0].app_id.as_deref(), Some("B"));
    assert_eq!(listed[0].on_monitor.as_deref(), Some("HDMI-1"));
}

#[test]
fn x11_sources_are_resolved() {
    let titled = CaptureSource::Window {
        identifier: Some(WindowIdentifier::Title("t".to_string())),
    };
    assert_eq!(x11_target(titled).unwrap(), X11Target::Titled("t".to_string()));
    let by_id = CaptureSource::Window {
        identifier: Some(WindowIdentifier::Id(0x1_0000_0005)),
    };
    assert_eq!(x11_target(by_id).unwrap(), X11Target::Window(5));
    assert_eq!(
        capture_text(x11_target(CaptureSource::Window { identifier: None }).unwrap_err()),
        "Window capture requires a Window identifier (id or title); none provided"
    );
    assert_eq!(
        x11_target(CaptureSource::FullScreen { monitor: None }).unwrap(),
        X11Target::Root
    );
    let monitors = [X11Monitor {
        name: "A".to_string(),
        x: -5,
        y: 3,
        width: 10,
        height: 20,
        primary: false,
    }];
    let source = monitor_source(1, &monitors, "A").unwrap();
    assert_eq!((source.origin_x, source.width), (-5, 10));
    assert_eq!(
        capture_text(monitor_source(1, &monitors, "B").unwrap_err()),
        "no XRandR monitor named \"B\""
    );
    let windows = [
        TitledWindow { id: 1, title: None },
        TitledWindow {
            id: 2,
            title: Some(b"Mail".to_vec()),
        },
        TitledWindow {
            id: 3,
            title: Some(b"Mail".to_vec()),
        },
    ];
    assert_eq!(lookup_window_by_title(&windows, "Mail").unwrap(), 2);
    let titles = vec![None, Some("a".to_string()), Some("b".to_string()), Some("b".to_string())];
    assert_eq!(find_title(&titles, "b"), Some(2));
    assert_eq!(find_title(&titles, "c"), None);
    assert_eq!(
        capture_text(lookup_window_by_title(&windows, "News").unwrap_err()),
        "no X11 window with _NET_WM_NAME == \"News\""
    );
}

#[test]
fn x11_captures_run_until_stopped() {
    let mut capture = X11Capture::new();
    assert_eq!(
        capture_text(capture.check_running().unwrap_err()),
        "Trying to close recorder without starting it"
    );
    let format = pick_pixmap_format(&[
        PixmapFormat {
            depth: 24,
            bits_per_pixel: 32,
        },
        PixmapFormat {
            depth: 32,
            bits_per_pixel: 32,
        },
    ])
    .unwrap();
    assert_eq!(format.depth, 32);
    assert_eq!(
        capture_text(pick_pixmap_format(&[]).unwrap_err()),
        "no matching pixmap format on this visual"
    );
    capture.started(whole_drawable(9, 3, 2), format, 25);
    assert!(capture.check_running().is_ok());
    let frame = capture.frame(vec![0; 24], 8);
    assert_eq!((frame.width, frame.height, frame.stride), (3, 2, 12));
    assert_eq!(capture.get_framerate(), 25);
    capture.stopped();
    assert!(!capture.is_running());
    assert_eq!(capture.get_screen_size(), (3, 2));
}

#[test]
fn window_captures_follow_events() {
    let mut capture = WindowCapture::new();
    assert_eq!(
        backend_text(capture_buffer(&capture).unwrap_err()),
        "session emitted `done` without buffer_size/shm_format"
    );
    capture.on_event(CaptureEvent::ShmFormat { format: 1 });
    capture.on_event(CaptureEvent::BufferSize {
        width: 10,
        height: 5,
    });
    capture.on_event(CaptureEvent::Done);
    let mut other = WindowCapture::new();
    other.on_event(CaptureEvent::BufferSize {
        width: 10,
        height: 5,
    });
    other.on_event(CaptureEvent::ShmFormat { format: 1 });
    other.on_event(CaptureEvent::Done);
    assert_eq!(capture, other);
    let buffer = capture_buffer(&capture).unwrap();
    assert_eq!(buffer.size(), 200);
    capture.on_event(CaptureEvent::FrameReady);
    assert!(frame_came(CaptureKind::Window, capture.status).is_ok());
    capture.on_event(CaptureEvent::Stopped);
    assert_eq!(
        backend_text(frame_came(CaptureKind::Window, capture.status).unwrap_err()),
        "compositor returned `failed` for ext-image-copy frame"
    );
    assert_eq!(
        backend_text(frame_came(CaptureKind::Monitor, FrameStatus::Failed).unwrap_err()),
        "compositor returned `failed` for screencopy frame"
    );
}

#[test]
fn outputs_are_found_for_thumbnails() {
    let outputs = [
        TurnedOutput {
            name: None,
            transform: Transform::Normal,
        },
        TurnedOutput {
            name: Some("DP-1".to_string()),
            transform: Transform::Rotated90,
        },
    ];
    assert_eq!(find_turned_output(&outputs, "DP-1").unwrap(), 1);
    assert_eq!(
        find_turned_output(&outputs, "DP-2").unwrap_err(),
        SourceError::NotFound("DP-2".to_string())
    );
    assert!(monitor_orientation(Transform::Normal, 3).y_invert);
    assert!(!monitor_orientation(Transform::Normal, 2).y_invert);
}

fn px(n: u8) -> Rgba {
    Rgba {
        r: n,
        g: n,
        b: n,
        a: 255,
    }
}

#[test]
fn pictures_are_turned_upright() {
    let picture = Picture {
        width: 2,
        height: 1,
        pixels: vec![px(1), px(2)],
    };
    let turned = upright(
        &picture,
        &Orientation {
            transform: Transform::Rotated90,
            y_invert: false,
        },
    );
    assert_eq!((turned.width, turned.height), (1, 2));
    let back = upright(
        &turned,
        &Orientation {
            transform: Transform::Rotated270,
            y_invert: false,
        },
    );
    assert_eq!(back.pixels, picture.pixels);
    let column = Picture {
        width: 1,
        height: 2,
        pixels: vec![px(1), px(2)],
    };
    let flipped = upright(
        &column,
        &Orientation {
            transform: Transform::Normal,
            y_invert: true,
        },
    );
    assert_eq!(flipped.pixels, vec![px(2), px(1)]);
    assert_eq!(upright(&column, &Orientation::default()).pixels, column.pixels);
}

#[test]
fn captured_bytes_become_pictures_and_png() {
    let info = BufferInfo {
        format: 1,
        width: 2,
        height: 1,
        stride: 12,
    };
    let src = [10, 20, 30, 0, 40, 50, 60, 0, 9, 9, 9, 9];
    let picture = captured_picture(&info, &src).unwrap();
    assert_eq!(
        picture.pixels,
        vec![
            Rgba {
                r: 30,
                g: 20,
                b: 10,
                a: 255
            },
            Rgba {
                r: 60,
                g: 50,
                b: 40,
                a: 255
            }
        ]
    );
    assert!(captured_picture(&info, &src[..4]).is_err());
    assert_eq!(channels(0x34324241), (0, 1, 2, 3, false));
    assert!(thumb_format(0).is_ok());
    assert!(thumb_format(77).is_err());
    assert_eq!(thumb_format(0x34324258).unwrap(), ShmFormat::Xbgr8888);
    assert_eq!(wl_shm_format(0x34324258).unwrap(), ShmFormat::Xbgr8888);
    assert_eq!(wl_shm_format_to_pixel(0x34324258), PixelFormat::Rgba);
    assert_eq!(channels(0x34324258), (0, 1, 2, 3, true));
    assert!(thumb_format(0x34325258).is_err());
    let same = encode_png(&picture, 2, 1).unwrap();
    let read = image::load_from_memory(&same).unwrap().to_rgba8();
    assert_eq!(read.dimensions(), (2, 1));
    assert_eq!(read.get_pixel(1, 0).0, [60, 50, 40, 255]);
    let wide = Picture {
        width: 4,
        height: 4,
        pixels: vec![px(100); 16],
    };
    let small = encode_png(&wide, 2, 2).unwrap();
    let read = image::load_from_memory(&small).unwrap().to_rgba8();
    assert_eq!(read.dimensions(), (2, 2));
    assert_eq!(read.get_pixel(0, 0).0, [100, 100, 100, 255]);
    assert!(thumbnail_fits(&wide, 2, 2));
}

#[test]
fn thumbnails_of_huge_blocks_do_not_fit() {
    let huge = Picture {
        width: 4200,
        height: 4200,
        pixels: vec![px(255); 4200 * 4200],
    };
    assert!(!thumbnail_fits(&huge, 1, 1));
    assert!(thumbnail_fits(&huge, 2, 2));
    let small = encode_png(&huge, 2, 2).unwrap();
    let read = image::load_from_memory(&small).unwrap().to_rgba8();
    assert_eq!(read.get_pixel(1, 1).0, [255, 255, 255, 255]);
}

#[test]
fn graphics_devices_are_picked() {
    assert_eq!(pick_queue_family(&[1, 4]), Some(1));
    assert_eq!(pick_queue_family(&[1]), Some(0));
    assert_eq!(pick_queue_family(&[]), None);
    let bare = PhysicalDevice {
        extensions: vec![],
        families: vec![4],
    };
    assert!(pick_physical_device(&[bare]).is_err());
    let listed = [
        ModifierProperties {
            modifier: 1,
            plane_count: 1,
            features: 0x4000,
        },
        ModifierProperties {
            modifier: 2,
            plane_count: 2,
            features: 0x1,
        },
    ];
    let kept = copyable_modifiers(&listed);
    assert_eq!(kept.len(), 1);
    assert_eq!(kept[0].modifier, 1);
    assert_eq!(pick_memory_type(&[1, 6, 7], 0b110, 2), Some(1));
    assert_eq!(pick_memory_type(&[1, 6], 0b01, 2), None);
    assert_eq!(staging_size(10, 2, PixelFormat::Bgra).unwrap(), (80, 40));
    assert_eq!(
        capture_text(staging_size(0, 2, PixelFormat::Rgba).unwrap_err()),
        "vulkan: staging size is zero"
    );
    assert_eq!(
        capture_text(staging_size(1, 1, PixelFormat::Nv12).unwrap_err()),
        "vulkan: format has no bpp"
    );
    assert!(staging_too_small(Some(5), 6));
    assert!(!staging_too_small(Some(6), 6));
    assert_eq!(video_format_to_vk(VideoFormat::BGRx), Some(VkFormat::B8G8R8A8Unorm));
    assert_eq!(video_format_to_vk(VideoFormat::NV12), None);
    assert_eq!(
        capture_text(import_format(PixelFormat::I420).unwrap_err()),
        "Vulkan: unsupported PixelFormat I420"
    );
    let usable = gpu_formats(&vec![vec![], vec![3], vec![], vec![4, 5]]);
    assert_eq!(usable.len(), 2);
    assert_eq!(usable[0].format, VideoFormat::BGRA);
    assert_eq!(usable[1].modifiers, vec![4, 5]);
}

fn image_of(n: u64) -> ImportedImage {
    ImportedImage {
        key: BufferId { dev: 1, ino: n },
        shape: ImageShape {
            width: 1,
            height: 1,
            format: 44,
            modifier: 0,
        },
        handle: n,
    }
}

#[test]
fn imported_buffers_are_kept_and_evicted_in_order() {
    let mut cache = ImportCache::new();
    for n in 0..MAX_IMPORT_CACHE as u64 {
        assert!(cache.insert(image_of(n)).is_none());
    }
    assert_eq!(
        cache.lookup(image_of(3).key, image_of(3).shape),
        CacheLookup::Hit(3)
    );
    let mut other = image_of(3).shape;
    other.width = 2;
    assert_eq!(cache.lookup(image_of(3).key, other), CacheLookup::Stale(3));
    assert_eq!(cache.insert(image_of(99)), Some(image_of(0)));
    assert_eq!(cache.lookup(image_of(0).key, image_of(0).shape), CacheLookup::Miss);
    cache.remove(image_of(3).key);
    assert_eq!(cache.lookup(image_of(3).key, image_of(3).shape), CacheLookup::Miss);
    assert_eq!(cache.clear().len(), MAX_IMPORT_CACHE - 1);
}

fn meta(n: u64) -> PendingMeta {
    PendingMeta {
        width: 1,
        height: 1,
        stride: 4,
        format: PixelFormat::Bgra,
        timestamp_us: n,
        byte_size: 4,
    }
}

#[test]
fn submissions_hand_back_the_one_before() {
    let mut ring = SubmitRing::new();
    let first = ring.begin();
    assert_eq!((first.slot, first.drain), (0, None));
    ring.submitted(first.slot, meta(1));
    let second = ring.begin();
    assert_eq!(second.slot, 1);
    assert_eq!(second.drain, Some((0, meta(1))));
    ring.submitted(second.slot, meta(2));
    let third = ring.begin();
    assert_eq!(third.drain, Some((1, meta(2))));
    ring.submitted(third.slot, meta(3));
    assert_eq!(ring.flush(), vec![third.slot]);
    assert_eq!(ring.begin().drain, None);
}

#[test]
fn direct_capture_needs_a_named_monitor() {
    let named = CaptureSource::FullScreen {
        monitor: Some("DP-1".to_string()),
    };
    assert_eq!(direct_output(named).unwrap(), "DP-1");
    assert_eq!(
        capture_text(direct_output(CaptureSource::FullScreen { monitor: None }).unwrap_err()),
        "wayland-direct: monitor id required (we don't pop a portal picker)"
    );
    assert!(direct_output(CaptureSource::Window { identifier: None }).is_err());
    let outputs = [NamedOutput {
        id: 1,
        name: Some("DP-1".to_string()),
    }];
    assert_eq!(find_output(&outputs, "DP-1").unwrap(), 0);
    assert_eq!(
        capture_text(find_output(&outputs, "DP-2").unwrap_err()),
        "no output named \"DP-2\""
    );
    assert_eq!(frame_period_us(30), 33_333);
    let paths = render_node_paths();
    assert_eq!(paths.first().map(|s| s.as_str()), Some("/dev/dri/renderD128"));
    assert_eq!(paths.len(), 65);
}

#[test]
fn render_nodes_match_the_main_device() {
    let nodes = [
        RenderNode {
            device: Some(1),
            opens: true,
        },
        RenderNode {
            device: Some(2),
            opens: true,
        },
    ];
    assert_eq!(pick_render_node(&nodes, Some(2)).unwrap(), 1);
    assert_eq!(pick_render_node(&nodes, Some(3)).unwrap(), 0);
    assert_eq!(pick_render_node(&nodes, None).unwrap(), 0);
    assert_eq!(
        capture_text(pick_render_node(&[], None).unwrap_err()),
        "wayland-direct: no usable DRM render node for DMA-BUF allocation"
    );
}

#[test]
fn allocation_tries_each_layout() {
    assert_eq!(
        modifier_candidates(&vec![]),
        vec![DRM_FORMAT_MOD_LINEAR, DRM_FORMAT_MOD_INVALID]
    );
    let wanted = modifier_candidates(&vec![7, 8, 0]);
    assert_eq!(wanted, vec![0, 8, 7]);
    assert_eq!(alloc_attempt(&wanted, 1), AllocAttempt::Modifier(8));
    assert_eq!(alloc_attempt(&wanted, 3), AllocAttempt::LinearFlag);
    assert_eq!(alloc_attempt(&wanted, 4), AllocAttempt::GiveUp);
    assert_eq!(
        capture_text(alloc_failed("Argb8888", 4, 2, None)),
        "gbm alloc (fourcc=Argb8888, 4x2): no modifier worked"
    );
    assert_eq!(
        capture_text(alloc_failed("Argb8888", 4, 2, Some("EINVAL"))),
        "gbm alloc (fourcc=Argb8888, 4x2): EINVAL"
    );
    let offer = |format: u32| DmabufOffer {
        format,
        width: 4,
        height: 2,
    };
    assert_eq!(offered_fourcc(&offer(0x3432_5241)).unwrap(), "DrmFourcc(AR24)");
    assert_eq!(
        capture_text(offered_fourcc(&offer(1)).unwrap_err()),
        "unknown DRM fourcc 0x00000001"
    );
    let buffer = AllocatedBuffer {
        width: 4,
        height: 2,
        stride: 16,
        modifier: 0,
        fourcc: 0x3432_4241,
    };
    assert_eq!(buffer.pixel_format(), PixelFormat::Rgba);
    assert_eq!(buffer.plane_size(), 32);
    assert_eq!(modifier_halves(0x0000_0001_0000_0002), (1, 2));
}

#[test]
fn three_failures_give_shared_buffers_up() {
    let mut info: Option<FrameInfo> = None;
    offer_shm(&mut info, 1, 10, 5, 40);
    offer_dmabuf(&mut info, 0x3432_5241, 10, 5);
    let info = info.unwrap();
    assert!(info.shm.is_some());
    let mut health = DmabufHealth::new();
    assert!(dmabuf_for_frame(&info, true, true, &health).is_some());
    assert!(dmabuf_for_frame(&info, false, true, &health).is_none());
    health.frame_done(true, false);
    health.frame_done(true, false);
    health.frame_done(true, true);
    health.frame_done(true, false);
    health.frame_done(false, false);
    health.frame_done(true, false);
    assert!(!health.disabled);
    health.frame_done(true, false);
    assert!(health.disabled);
    assert!(dmabuf_for_frame(&info, true, true, &health).is_none());
    let layout = shm_layout(&info).unwrap();
    assert_eq!((layout.size, layout.stride), (200, 40));
    let empty = FrameInfo { shm: None, ..info };
    assert_eq!(
        capture_text(shm_layout(&empty).unwrap_err()),
        "compositor didn't offer wl_shm format for this frame"
    );
    assert_eq!(
        capture_text(wl_shm_format(9).unwrap_err()),
        "unsupported wl_shm format 0x00000009"
    );
}

#[test]
fn frames_fall_back_to_plain_memory() {
    let offered = FrameInfo {
        width: 10,
        height: 5,
        dmabuf: Some(DmabufOffer {
            format: 0x3432_5241,
            width: 10,
            height: 5,
        }),
        shm: Some(ShmOffer {
            format: 1,
            stride: 40,
        }),
    };
    let mut worker = FrameWorker::new(true, true);
    for round in 0..3 {
        let (tell, action) = worker.announced(Some(offered));
        assert_eq!(tell, if round == 0 { Some((10, 5)) } else { None });
        assert!(matches!(action, WorkerAction::MakeShared(_)));
        assert!(matches!(worker.allocated(true), WorkerAction::CopyShared));
        assert!(matches!(worker.copied(FrameStatus::Failed), WorkerAction::Skip));
    }
    let (_, action) = worker.announced(Some(offered));
    match action {
        WorkerAction::CopyPlain(layout) => assert_eq!(layout.size, 200),
        other => panic!("{other:?}"),
    }
    assert!(matches!(worker.copied(FrameStatus::Ready), WorkerAction::Emit));
    let mut fresh = FrameWorker::new(true, true);
    fresh.announced(Some(offered));
    assert!(matches!(fresh.allocated(false), WorkerAction::CopyPlain(_)));
    assert!(matches!(fresh.copied(FrameStatus::Pending), WorkerAction::Skip));
    match fresh.announced(None).1 {
        WorkerAction::Fail(e) => assert_eq!(
            capture_text(e),
            "compositor didn't announce buffer params within 2s"
        ),
        other => panic!("{other:?}"),
    }
}

#[test]
fn outputs_get_their_names() {
    let mut outputs = vec![
        NamedOutput { id: 1, name: None },
        NamedOutput { id: 2, name: None },
    ];
    name_output(&mut outputs, 2, "DP-2".to_string());
    name_first_unnamed(&mut outputs, "DP-1".to_string());
    name_first_unnamed(&mut outputs, "DP-3".to_string());
    assert_eq!(find_output(&outputs, "DP-1").unwrap(), 0);
    assert_eq!(find_output(&outputs, "DP-2").unwrap(), 1);
    assert!(find_output(&outputs, "DP-3").is_err());
}

#[test]
fn feedback_lists_accepted_layouts() {
    assert_eq!(decode_dev_t(&[1, 0, 0, 0, 0, 0, 0, 2]), Some(0x0200_0000_0000_0001));
    assert_eq!(decode_dev_t(&[1, 2]), None);
    let mut table = Vec::new();
    for (format, modifier) in [(0x11u32, 5u64), (0x11, 6), (0x22, 7)] {
        table.extend(format.to_le_bytes());
        table.extend([0u8; 4]);
        table.extend(modifier.to_le_bytes());
    }
    let mut feedback = Feedback::new();
    feedback.set_main_device(&[1, 0, 0, 0, 0, 0, 0, 0]);
    feedback.tranche_device(&[1, 0, 0, 0, 0, 0, 0, 0]);
    feedback.tranche_formats(&[0, 0, 1, 0, 0, 0, 9, 0]);
    feedback.tranche_done();
    let accepted = resolve_feedback(&feedback, Some(&table));
    assert_eq!(accepted.len(), 1);
    assert_eq!(accepted[&0x11], vec![5, 6]);
    assert!(resolve_feedback(&feedback, None).is_empty());
}

#[test]
fn desktops_list_monitors_and_windows() {
    assert_eq!(
        desktop_capabilities(),
        vec![EnumerationCapability::Monitors, EnumerationCapability::Windows]
    );
}
