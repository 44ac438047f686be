//! Monitors and windows as a picker lists them: kept up to date from the
//! compositor's events, or read off an X server.

use vstd::prelude::*;
use vstd::string::*;

use crate::octets::copy_range;
use crate::text::{decimal, decimal_text};

verus! {

/// A rectangle on the desktop.
#[derive(Clone, Copy, Debug, PartialEq, Eq, Structural)]
pub struct Geometry {
    pub x: i32,
    pub y: i32,
    pub width: u32,
    pub height: u32,
}

/// A monitor that can be captured.
#[derive(Debug, PartialEq, Eq)]
pub struct MonitorInfo {
    pub id: String,
    pub name: String,
    pub make: Option<String>,
    pub model: Option<String>,
    pub geometry: Geometry,
    pub scale: u32,
    pub refresh_mhz: Option<u32>,
    pub primary: bool,
}

/// A window that can be captured.
#[derive(Debug, PartialEq, Eq)]
pub struct WindowInfo {
    pub id: String,
    pub title: String,
    pub app_id: Option<String>,
    pub pid: Option<u32>,
    pub geometry: Option<Geometry>,
    pub on_monitor: Option<String>,
}

/// What a desktop can list.
#[derive(Clone, Copy, Debug, PartialEq, Eq, Structural)]
pub enum EnumerationCapability {
    Monitors,
    Windows,
}

/// What the desktops of both display servers list.
pub fn desktop_capabilities() -> (capabilities: Vec<EnumerationCapability>)
    ensures
        capabilities@ == seq![EnumerationCapability::Monitors, EnumerationCapability::Windows],
{
    let mut capabilities: Vec<EnumerationCapability> = Vec::new();
    capabilities.push(EnumerationCapability::Monitors);
    capabilities.push(EnumerationCapability::Windows);
    assert(capabilities@ =~= seq![
        EnumerationCapability::Monitors,
        EnumerationCapability::Windows,
    ]);
    capabilities
}

/// What has changed.
#[derive(Clone, Copy, Debug, PartialEq, Eq, Structural)]
pub enum SourceChange {
    Monitors,
    Windows,
}

/// What is known of an output.
pub struct OutputData {
    pub name: Option<String>,
    pub description: Option<String>,
    pub make: Option<String>,
    pub model: Option<String>,
    pub logical_x: i32,
    pub logical_y: i32,
    pub logical_w: i32,
    pub logical_h: i32,
    pub scale: i32,
    pub refresh_mhz: i32,
    pub ready: bool,
}

/// What is known of a window.
pub struct ToplevelData {
    pub title: String,
    pub app_id: Option<String>,
    /// The outputs that the window is on, in the order in which it came there.
    pub outputs: Vec<u32>,
    pub identifier: Option<String>,
    pub closed: bool,
    pub ready: bool,
}

/// The text of an optional string.
pub open spec fn text(s: Option<String>) -> Option<Seq<char>> {
    match s {
        Some(t) => Some(t@),
        None => None,
    }
}

fn copy_text(s: &Option<String>) -> (out: Option<String>)
    ensures
        text(out) == text(*s),
{
    match s {
        Some(t) => Some(t.clone()),
        None => None,
    }
}

/// An output as a listing shows it.
pub struct Monitor {
    pub id: Seq<char>,
    pub name: Seq<char>,
    pub make: Option<Seq<char>>,
    pub model: Option<Seq<char>>,
    pub geometry: Geometry,
    pub scale: u32,
    pub refresh_mhz: Option<u32>,
    pub primary: bool,
}

impl View for MonitorInfo {
    type V = Monitor;

    open spec fn view(&self) -> Monitor {
        Monitor {
            id: self.id@,
            name: self.name@,
            make: text(self.make),
            model: text(self.model),
            geometry: self.geometry,
            scale: self.scale,
            refresh_mhz: self.refresh_mhz,
            primary: self.primary,
        }
    }
}

/// A window as a listing shows it.
pub struct WindowEntry {
    pub id: Seq<char>,
    pub title: Seq<char>,
    pub app_id: Option<Seq<char>>,
    pub pid: Option<u32>,
    pub geometry: Option<Geometry>,
    pub on_monitor: Option<Seq<char>>,
}

impl View for WindowInfo {
    type V = WindowEntry;

    open spec fn view(&self) -> WindowEntry {
        WindowEntry {
            id: self.id@,
            title: self.title@,
            app_id: text(self.app_id),
            pid: self.pid,
            geometry: self.geometry,
            on_monitor: text(self.on_monitor),
        }
    }
}

/// A negative number as zero.
pub open spec fn not_negative(n: i32) -> u32 {
    if n < 0 {
        0
    } else {
        n as u32
    }
}

/// How an output that is ready is listed: under its name, shown with its
/// description, at its logical place. No output is the primary one.
pub open spec fn monitor_of(o: OutputData) -> Monitor {
    let name = match o.name {
        Some(n) => n@,
        None => "wl_output"@,
    };
    Monitor {
        id: name,
        name: match o.description {
            Some(d) => d@,
            None => name,
        },
        make: text(o.make),
        model: text(o.model),
        geometry: Geometry {
            x: o.logical_x,
            y: o.logical_y,
            width: not_negative(o.logical_w),
            height: not_negative(o.logical_h),
        },
        scale: if o.scale < 1 {
            1
        } else {
            o.scale as u32
        },
        refresh_mhz: if o.refresh_mhz > 0 {
            Some(o.refresh_mhz as u32)
        } else {
            None
        },
        primary: false,
    }
}

fn clamp(n: i32) -> (m: u32)
    ensures
        m == not_negative(n),
{
    if n < 0 {
        0
    } else {
        n as u32
    }
}

fn list_monitor(o: &OutputData) -> (m: MonitorInfo)
    ensures
        m@ == monitor_of(*o),
{
    let id: String = match &o.name {
        Some(n) => n.clone(),
        None => "wl_output".to_owned(),
    };
    let name: String = match &o.description {
        Some(d) => d.clone(),
        None => id.clone(),
    };
    MonitorInfo {
        id,
        name,
        make: copy_text(&o.make),
        model: copy_text(&o.model),
        geometry: Geometry {
            x: o.logical_x,
            y: o.logical_y,
            width: clamp(o.logical_w),
            height: clamp(o.logical_h),
        },
        scale: if o.scale < 1 {
            1
        } else {
            o.scale as u32
        },
        refresh_mhz: if o.refresh_mhz > 0 {
            Some(o.refresh_mhz as u32)
        } else {
            None
        },
        primary: false,
    }
}

/// The data under an identifier, if there is any.
pub open spec fn data_of<V>(entries: Seq<(u32, V)>, id: u32) -> Option<V>
    decreases entries.len(),
{
    if entries.len() == 0 {
        None
    } else if entries[0].0 == id {
        Some(entries[0].1)
    } else {
        data_of(entries.skip(1), id)
    }
}

/// The name of the first output that a window is on.
pub open spec fn first_output_name(
    outputs: Seq<(u32, OutputData)>,
    on: Seq<u32>,
) -> Option<Seq<char>> {
    if on.len() == 0 {
        None
    } else {
        match data_of(outputs, on[0]) {
            Some(o) => text(o.name),
            None => None,
        }
    }
}

/// How a window is listed: under its own identifier, else under its number.
pub open spec fn window_of(
    id: u32,
    t: ToplevelData,
    outputs: Seq<(u32, OutputData)>,
) -> WindowEntry {
    WindowEntry {
        id: match t.identifier {
            Some(s) => s@,
            None => decimal(id as nat),
        },
        title: t.title@,
        app_id: text(t.app_id),
        pid: None,
        geometry: None,
        on_monitor: first_output_name(outputs, t.outputs@),
    }
}

fn list_window(id: u32, t: &ToplevelData, outputs: &Vec<(u32, OutputData)>) -> (w: WindowInfo)
    ensures
        w@ == window_of(id, *t, outputs@),
{
    let shown: String = match &t.identifier {
        Some(s) => s.clone(),
        None => decimal_text(id as u64),
    };
    let on_monitor: Option<String> = if t.outputs.len() == 0 {
        None
    } else {
        match place_of(outputs, t.outputs[0]) {
            Some(i) => copy_text(&outputs[i].1.name),
            None => None,
        }
    };
    WindowInfo {
        id: shown,
        title: t.title.clone(),
        app_id: copy_text(&t.app_id),
        pid: None,
        geometry: None,
        on_monitor,
    }
}

fn place_of<V>(entries: &Vec<(u32, V)>, id: u32) -> (at: Option<usize>)
    ensures
        match at {
            Some(i) => i < entries@.len() && entries@[i as int].0 == id && data_of(entries@, id)
                == Some(entries@[i as int].1) && forall|j: int|
                0 <= j < i ==> (#[trigger] entries@[j]).0 != id,
            None => data_of(entries@, id) is None && forall|j: int|
                0 <= j < entries@.len() ==> (#[trigger] entries@[j]).0 != id,
        },
{
    let mut i: usize = 0;
    assert(entries@.skip(0) =~= entries@);
    while i < entries.len()
        invariant
            i <= entries@.len(),
            data_of(entries@.skip(i as int), id) == data_of(entries@, id),
            forall|j: int| 0 <= j < i ==> (#[trigger] entries@[j]).0 != id,
        decreases entries@.len() - i,
    {
        let ghost rest = entries@.skip(i as int);
        assert(rest[0] == entries@[i as int]);
        if entries[i].0 == id {
            return Some(i);
        }
        assert(rest.skip(1) =~= entries@.skip(i + 1));
        i = i + 1;
    }
    assert(entries@.skip(entries@.len() as int) =~= Seq::<(u32, V)>::empty());
    None
}

/// The outputs that are ready, as listed.
pub open spec fn listed_monitors(outputs: Seq<(u32, OutputData)>) -> Seq<Monitor>
    decreases outputs.len(),
{
    if outputs.len() == 0 {
        Seq::empty()
    } else if outputs.last().1.ready {
        listed_monitors(outputs.drop_last()).push(monitor_of(outputs.last().1))
    } else {
        listed_monitors(outputs.drop_last())
    }
}

/// The windows that are ready and open, as listed.
pub open spec fn listed_windows(
    windows: Seq<(u32, ToplevelData)>,
    outputs: Seq<(u32, OutputData)>,
) -> Seq<WindowEntry>
    decreases windows.len(),
{
    if windows.len() == 0 {
        Seq::empty()
    } else {
        let rest = listed_windows(windows.drop_last(), outputs);
        let t = windows.last().1;
        if t.ready && !t.closed {
            rest.push(window_of(windows.last().0, t, outputs))
        } else {
            rest
        }
    }
}

/// Everything that is listed.
pub struct Snapshot {
    pub monitors: Vec<MonitorInfo>,
    pub windows: Vec<WindowInfo>,
}

/// The monitors of a snapshot.
pub open spec fn monitors_view(monitors: Seq<MonitorInfo>) -> Seq<Monitor> {
    monitors.map_values(|m: MonitorInfo| m@)
}

/// The windows of a snapshot.
pub open spec fn windows_view(windows: Seq<WindowInfo>) -> Seq<WindowEntry> {
    windows.map_values(|w: WindowInfo| w@)
}

/// The outputs and windows of a compositor. Windows come by one of two
/// protocols; each has its own numbers.
pub struct Desktop {
    pub outputs: Vec<(u32, OutputData)>,
    pub wlr: Vec<(u32, ToplevelData)>,
    pub ext: Vec<(u32, ToplevelData)>,
    pub monitors_dirty: bool,
    pub windows_dirty: bool,
}

/// What the compositor tells of an output.
pub enum OutputEvent {
    Geometry { make: String, model: String },
    /// A mode, and whether it is the one in use.
    Mode { refresh: i32, current: bool },
    Scale { factor: i32 },
    Name { name: String },
    Description { description: String },
    Done,
}

/// What the compositor tells of the logical place of an output.
pub enum LogicalEvent {
    Position { x: i32, y: i32 },
    Size { width: i32, height: i32 },
    Name { name: String },
    Description { description: String },
    Done,
}

/// What the compositor tells of a window.
pub enum ToplevelEvent {
    Title { title: String },
    AppId { app_id: String },
    Identifier { identifier: String },
    OutputEnter { output: u32 },
    OutputLeave { output: u32 },
    Done,
    Closed,
}

/// An output of which nothing is known.
pub open spec fn fresh_output_data() -> OutputData {
    OutputData {
        name: None,
        description: None,
        make: None,
        model: None,
        logical_x: 0,
        logical_y: 0,
        logical_w: 0,
        logical_h: 0,
        scale: 0,
        refresh_mhz: 0,
        ready: false,
    }
}

fn fresh_output() -> (o: OutputData)
    ensures
        o == fresh_output_data(),
{
    OutputData {
        name: None,
        description: None,
        make: None,
        model: None,
        logical_x: 0,
        logical_y: 0,
        logical_w: 0,
        logical_h: 0,
        scale: 0,
        refresh_mhz: 0,
        ready: false,
    }
}

/// What an output's data becomes by an event. Empty makes and models say
/// nothing; only the mode in use counts.
pub open spec fn output_after(o: OutputData, event: OutputEvent) -> OutputData {
    match event {
        OutputEvent::Geometry { make, model } => OutputData {
            make: if make@.len() > 0 {
                Some(make)
            } else {
                o.make
            },
            model: if model@.len() > 0 {
                Some(model)
            } else {
                o.model
            },
            ..o
        },
        OutputEvent::Mode { refresh, current } => if current {
            OutputData { refresh_mhz: refresh, ..o }
        } else {
            o
        },
        OutputEvent::Scale { factor } => OutputData { scale: factor, ..o },
        OutputEvent::Name { name } => OutputData { name: Some(name), ..o },
        OutputEvent::Description { description } => OutputData {
            description: Some(description),
            ..o
        },
        OutputEvent::Done => OutputData { ready: true, ..o },
    }
}

/// What an output's data becomes by an event of its logical place; names and
/// descriptions count only where the output has none of its own.
pub open spec fn output_after_logical(o: OutputData, event: LogicalEvent) -> OutputData {
    match event {
        LogicalEvent::Position { x, y } => OutputData { logical_x: x, logical_y: y, ..o },
        LogicalEvent::Size { width, height } => OutputData {
            logical_w: width,
            logical_h: height,
            ..o
        },
        LogicalEvent::Name { name } => if o.name is None {
            OutputData { name: Some(name), ..o }
        } else {
            o
        },
        LogicalEvent::Description { description } => if o.description is None {
            OutputData { description: Some(description), ..o }
        } else {
            o
        },
        LogicalEvent::Done => o,
    }
}

impl OutputData {
    /// Takes an event.
    pub fn on_event(&mut self, event: OutputEvent)
        ensures
            *final(self) == output_after(*old(self), event),
    {
        match event {
            OutputEvent::Geometry { make, model } => {
                if make.as_str().unicode_len() > 0 {
                    self.make = Some(make);
                }
                if model.as_str().unicode_len() > 0 {
                    self.model = Some(model);
                }
            },
            OutputEvent::Mode { refresh, current } => {
                if current {
                    self.refresh_mhz = refresh;
                }
            },
            OutputEvent::Scale { factor } => {
                self.scale = factor;
            },
            OutputEvent::Name { name } => {
                self.name = Some(name);
            },
            OutputEvent::Description { description } => {
                self.description = Some(description);
            },
            OutputEvent::Done => {
                self.ready = true;
            },
        }
    }

    /// Takes an event of its logical place.
    pub fn on_logical(&mut self, event: LogicalEvent)
        ensures
            *final(self) == output_after_logical(*old(self), event),
    {
        match event {
            LogicalEvent::Position { x, y } => {
                self.logical_x = x;
                self.logical_y = y;
            },
            LogicalEvent::Size { width, height } => {
                self.logical_w = width;
                self.logical_h = height;
            },
            LogicalEvent::Name { name } => {
                if self.name.is_none() {
                    self.name = Some(name);
                }
            },
            LogicalEvent::Description { description } => {
                if self.description.is_none() {
                    self.description = Some(description);
                }
            },
            LogicalEvent::Done => {},
        }
    }
}

/// The outputs without `output`.
pub open spec fn without_output(outputs: Seq<u32>, output: u32) -> Seq<u32>
    decreases outputs.len(),
{
    if outputs.len() == 0 {
        Seq::empty()
    } else if outputs.last() == output {
        without_output(outputs.drop_last(), output)
    } else {
        without_output(outputs.drop_last(), output).push(outputs.last())
    }
}

fn leave(outputs: &Vec<u32>, output: u32) -> (left: Vec<u32>)
    ensures
        left@ == without_output(outputs@, output),
{
    let mut left: Vec<u32> = Vec::new();
    let mut i: usize = 0;
    while i < outputs.len()
        invariant
            i <= outputs@.len(),
            left@ == without_output(outputs@.take(i as int), output),
        decreases outputs@.len() - i,
    {
        assert(outputs@.take(i + 1).drop_last() =~= outputs@.take(i as int));
        if outputs[i] != output {
            left.push(outputs[i]);
        }
        i = i + 1;
    }
    assert(outputs@.take(outputs@.len() as int) =~= outputs@);
    left
}

fn holds(outputs: &Vec<u32>, output: u32) -> (held: bool)
    ensures
        held == outputs@.contains(output),
{
    let mut i: usize = 0;
    while i < outputs.len()
        invariant
            i <= outputs@.len(),
            forall|k: int| 0 <= k < i ==> outputs@[k] != output,
        decreases outputs@.len() - i,
    {
        if outputs[i] == output {
            return true;
        }
        i = i + 1;
    }
    false
}

/// What a window's data becomes by an event. With `title_is_enough` a title
/// makes the window ready. Entering an output twice counts once.
pub open spec fn toplevel_after(
    t: ToplevelData,
    event: ToplevelEvent,
    title_is_enough: bool,
    n: ToplevelData,
) -> bool {
    match event {
        ToplevelEvent::Title { title } => n == (ToplevelData {
            title,
            ready: t.ready || title_is_enough,
            ..t
        }),
        ToplevelEvent::AppId { app_id } => n == (ToplevelData { app_id: Some(app_id), ..t }),
        ToplevelEvent::Identifier { identifier } => n == (ToplevelData {
            identifier: Some(identifier),
            ..t
        }),
        ToplevelEvent::OutputEnter { output } => {
            &&& n.outputs@ == if t.outputs@.contains(output) {
                t.outputs@
            } else {
                t.outputs@.push(output)
            }
            &&& n == (ToplevelData { outputs: n.outputs, ..t })
        },
        ToplevelEvent::OutputLeave { output } => {
            &&& n.outputs@ == without_output(t.outputs@, output)
            &&& n == (ToplevelData { outputs: n.outputs, ..t })
        },
        ToplevelEvent::Done => n == (ToplevelData { ready: true, ..t }),
        ToplevelEvent::Closed => n == (ToplevelData { closed: true, ..t }),
    }
}

impl ToplevelData {
    /// Takes an event.
    pub fn on_event(&mut self, event: ToplevelEvent, title_is_enough: bool)
        ensures
            toplevel_after(*old(self), event, title_is_enough, *final(self)),
    {
        match event {
            ToplevelEvent::Title { title } => {
                self.title = title;
                self.ready = self.ready || title_is_enough;
            },
            ToplevelEvent::AppId { app_id } => {
                self.app_id = Some(app_id);
            },
            ToplevelEvent::Identifier { identifier } => {
                self.identifier = Some(identifier);
            },
            ToplevelEvent::OutputEnter { output } => {
                if !holds(&self.outputs, output) {
                    self.outputs.push(output);
                }
            },
            ToplevelEvent::OutputLeave { output } => {
                self.outputs = leave(&self.outputs, output);
            },
            ToplevelEvent::Done => {
                self.ready = true;
            },
            ToplevelEvent::Closed => {
                self.closed = true;
            },
        }
    }
}

/// A window of which nothing is known.
pub open spec fn is_fresh_toplevel(t: ToplevelData) -> bool {
    &&& t.title@.len() == 0
    &&& t.app_id is None
    &&& t.outputs@.len() == 0
    &&& t.identifier is None
    &&& !t.closed
    &&& !t.ready
}

/// Which protocol a window came by.
#[derive(Clone, Copy, Debug, PartialEq, Eq, Structural)]
pub enum ToplevelProtocol {
    /// The richer one of the wlroots family; a title makes a window ready.
    Wlr,
    /// The standard one, without outputs.
    Ext,
}

/// No number stands twice.
pub open spec fn distinct_ids<V>(entries: Seq<(u32, V)>) -> bool {
    forall|i: int, j: int|
        0 <= i < entries.len() && 0 <= j < entries.len() && entries[i].0 == entries[j].0 ==> i == j
}

/// The entries with `value` under `id`: in place of the one there, or at the end.
pub open spec fn put_entry<V>(entries: Seq<(u32, V)>, id: u32, value: V) -> Seq<(u32, V)> {
    if data_of(entries, id) is Some {
        Seq::new(
            entries.len(),
            |i: int|
                if entries[i].0 == id {
                    (id, value)
                } else {
                    entries[i]
                },
        )
    } else {
        entries.push((id, value))
    }
}

/// The entries without those under `id`.
pub open spec fn drop_entry<V>(entries: Seq<(u32, V)>, id: u32) -> Seq<(u32, V)>
    decreases entries.len(),
{
    if entries.len() == 0 {
        Seq::empty()
    } else if entries.last().0 == id {
        drop_entry(entries.drop_last(), id)
    } else {
        drop_entry(entries.drop_last(), id).push(entries.last())
    }
}

proof fn lemma_data_at<V>(entries: Seq<(u32, V)>, id: u32, i: int)
    requires
        0 <= i < entries.len(),
        entries[i].0 == id,
        forall|j: int| 0 <= j < i ==> (#[trigger] entries[j]).0 != id,
    ensures
        data_of(entries, id) == Some(entries[i].1),
    decreases entries.len(),
{
    if i > 0 {
        assert(entries[0].0 != id);
        assert forall|j: int| 0 <= j < i - 1 implies (#[trigger] entries.skip(1)[j]).0 != id by {
            assert(entries.skip(1)[j] == entries[j + 1]);
        }
        lemma_data_at(entries.skip(1), id, i - 1);
    }
}

proof fn lemma_no_data<V>(entries: Seq<(u32, V)>, id: u32)
    requires
        forall|j: int| 0 <= j < entries.len() ==> (#[trigger] entries[j]).0 != id,
    ensures
        data_of(entries, id) is None,
    decreases entries.len(),
{
    if entries.len() > 0 {
        assert(entries[0].0 != id);
        assert forall|j: int| 0 <= j < entries.skip(1).len() implies (#[trigger] entries.skip(
            1,
        )[j]).0 != id by {
            assert(entries.skip(1)[j] == entries[j + 1]);
        }
        lemma_no_data(entries.skip(1), id);
    }
}

proof fn lemma_same_data<V>(a: Seq<(u32, V)>, b: Seq<(u32, V)>, id: u32)
    requires
        a.len() == b.len(),
        forall|i: int|
            0 <= i < a.len() ==> (#[trigger] a[i]).0 == b[i].0 && (a[i].0 == id ==> a[i].1
                == b[i].1),
    ensures
        data_of(a, id) == data_of(b, id),
    decreases a.len(),
{
    if a.len() > 0 {
        assert(a[0].0 == b[0].0);
        if a[0].0 != id {
            let (x, y) = (a.skip(1), b.skip(1));
            assert forall|i: int| 0 <= i < x.len() implies (#[trigger] x[i]).0 == y[i].0 && (
            x[i].0 == id ==> x[i].1 == y[i].1) by {
                assert(a[i + 1].0 == b[i + 1].0);
            }
            lemma_same_data(x, y, id);
        }
    }
}

proof fn lemma_push_other<V>(entries: Seq<(u32, V)>, entry: (u32, V), id: u32)
    requires
        entry.0 != id,
    ensures
        data_of(entries.push(entry), id) == data_of(entries, id),
    decreases entries.len(),
{
    let all = entries.push(entry);
    if entries.len() == 0 {
        assert(all[0] == entry);
        assert(all.skip(1) =~= entries);
        assert(data_of(all, id) == data_of(all.skip(1), id));
    } else {
        assert(all[0] == entries[0]);
        assert(all.skip(1) =~= entries.skip(1).push(entry));
        lemma_push_other(entries.skip(1), entry, id);
    }
}

proof fn lemma_drop_other<V>(entries: Seq<(u32, V)>, id: u32, other: u32)
    requires
        other != id,
    ensures
        data_of(drop_entry(entries, id), other) == data_of(entries, other),
    decreases entries.len(),
{
    if entries.len() > 0 {
        lemma_drop_front(entries, id);
        lemma_drop_other(entries.skip(1), id, other);
        if entries[0].0 != id {
            let rest = drop_entry(entries.skip(1), id);
            let all = seq![entries[0]] + rest;
            assert(all[0] == entries[0]);
            assert(all.skip(1) =~= rest);
        }
    }
}

/// What was put under an identifier is found there, and nothing else moves.
pub proof fn put_then_found<V>(entries: Seq<(u32, V)>, id: u32, value: V)
    requires
        distinct_ids(entries),
    ensures
        data_of(put_entry(entries, id, value), id) == Some(value),
        distinct_ids(put_entry(entries, id, value)),
        forall|other: u32|
            other != id ==> #[trigger] data_of(put_entry(entries, id, value), other) == data_of(
                entries,
                other,
            ),
{
    lemma_data_place(entries, id);
    let after = put_entry(entries, id, value);
    assert forall|other: u32| other != id implies #[trigger] data_of(after, other) == data_of(
        entries,
        other,
    ) by {
        if data_of(entries, id) is Some {
            lemma_same_data(after, entries, other);
        } else {
            lemma_push_other(entries, (id, value), other);
        }
    }
    if data_of(entries, id) is Some {
        let i = choose|i: int| 0 <= i < entries.len() && (#[trigger] entries[i]).0 == id;
        assert(after[i] == (id, value));
        assert forall|j: int| 0 <= j < i implies (#[trigger] after[j]).0 != id by {
            assert(entries[j].0 != id);
        }
        lemma_data_at(after, id, i);
    } else {
        assert forall|j: int| 0 <= j < entries.len() implies (#[trigger] after[j]).0 != id by {
            assert(entries[j].0 != id);
        }
        lemma_data_at(after, id, entries.len() as int);
    }
}

/// Replacing the one entry under `id` is putting it.
proof fn lemma_replaced<V>(
    before: Seq<(u32, V)>,
    after: Seq<(u32, V)>,
    id: u32,
    value: V,
    i: int,
)
    requires
        distinct_ids(before),
        0 <= i < before.len(),
        before[i].0 == id,
        after.len() == before.len(),
        after[i] == (id, value),
        forall|j: int| 0 <= j < before.len() && j != i ==> #[trigger] after[j] == before[j],
    ensures
        after == put_entry(before, id, value),
{
    lemma_data_place(before, id);
    assert forall|j: int| 0 <= j < before.len() implies after[j] == put_entry(
        before,
        id,
        value,
    )[j] by {
        if j != i {
            assert(before[j].0 != before[i].0);
        }
    }
    assert(after =~= put_entry(before, id, value));
}

proof fn lemma_data_place<V>(entries: Seq<(u32, V)>, id: u32)
    ensures
        data_of(entries, id) is Some <==> exists|i: int|
            0 <= i < entries.len() && (#[trigger] entries[i]).0 == id,
    decreases entries.len(),
{
    if entries.len() > 0 && entries[0].0 != id {
        let rest = entries.skip(1);
        lemma_data_place(rest, id);
        if exists|i: int| 0 <= i < entries.len() && (#[trigger] entries[i]).0 == id {
            let i = choose|i: int| 0 <= i < entries.len() && (#[trigger] entries[i]).0 == id;
            assert(rest[i - 1].0 == id);
        }
        if exists|i: int| 0 <= i < rest.len() && (#[trigger] rest[i]).0 == id {
            let i = choose|i: int| 0 <= i < rest.len() && (#[trigger] rest[i]).0 == id;
            assert(entries[i + 1].0 == id);
        }
    }
}

/// A dropped entry is gone, and nothing else is.
pub proof fn drop_then_missing<V>(entries: Seq<(u32, V)>, id: u32)
    ensures
        data_of(drop_entry(entries, id), id) is None,
        distinct_ids(entries) ==> distinct_ids(drop_entry(entries, id)),
        forall|other: u32|
            other != id ==> #[trigger] data_of(drop_entry(entries, id), other) == data_of(
                entries,
                other,
            ),
{
    assert forall|other: u32| other != id implies #[trigger] data_of(
        drop_entry(entries, id),
        other,
    ) == data_of(entries, other) by {
        lemma_drop_other(entries, id, other);
    }
    lemma_drop(entries, id);
    lemma_no_data(drop_entry(entries, id), id);
}

spec fn occurs<V>(entries: Seq<(u32, V)>, id: u32) -> bool {
    exists|i: int| 0 <= i < entries.len() && (#[trigger] entries[i]).0 == id
}

proof fn lemma_drop<V>(entries: Seq<(u32, V)>, id: u32)
    ensures
        forall|j: int|
            0 <= j < drop_entry(entries, id).len() ==> (#[trigger] drop_entry(entries, id)[j]).0
                != id && occurs(entries, drop_entry(entries, id)[j].0),
        distinct_ids(entries) ==> distinct_ids(drop_entry(entries, id)),
    decreases entries.len(),
{
    if entries.len() > 0 {
        let rest = entries.drop_last();
        let d = drop_entry(entries, id);
        let dr = drop_entry(rest, id);
        lemma_drop(rest, id);
        assert forall|j: int| 0 <= j < d.len() implies (#[trigger] d[j]).0 != id && occurs(
            entries,
            d[j].0,
        ) by {
            if j < dr.len() {
                assert(d[j] == dr[j]);
                let k = choose|k: int| 0 <= k < rest.len() && (#[trigger] rest[k]).0 == dr[j].0;
                assert(entries[k].0 == d[j].0);
            } else {
                assert(entries[entries.len() - 1].0 == d[j].0);
            }
        }
        if distinct_ids(entries) {
            assert(distinct_ids(rest)) by {
                assert forall|i: int, j: int|
                    0 <= i < rest.len() && 0 <= j < rest.len() && rest[i].0 == rest[j].0 implies i
                    == j by {
                    assert(entries[i].0 == entries[j].0);
                }
            }
            assert forall|i: int, j: int|
                0 <= i < d.len() && 0 <= j < d.len() && d[i].0 == d[j].0 implies i == j by {
                if i < dr.len() && j < dr.len() {
                    assert(dr[i].0 == dr[j].0);
                } else if i < dr.len() {
                    assert(occurs(rest, dr[i].0));
                    let k = choose|k: int|
                        0 <= k < rest.len() && (#[trigger] rest[k]).0 == dr[i].0;
                    assert(entries[k].0 == entries[entries.len() - 1].0);
                } else if j < dr.len() {
                    assert(occurs(rest, dr[j].0));
                    let k = choose|k: int|
                        0 <= k < rest.len() && (#[trigger] rest[k]).0 == dr[j].0;
                    assert(entries[k].0 == entries[entries.len() - 1].0);
                }
            }
        }
    }
}

fn put<V>(entries: &mut Vec<(u32, V)>, id: u32, value: V)
    requires
        distinct_ids(old(entries)@),
    ensures
        distinct_ids(final(entries)@),
        final(entries)@ == put_entry(old(entries)@, id, value),
{
    proof {
        put_then_found(entries@, id, value);
    }
    match place_of(entries, id) {
        Some(i) => {
            let ghost before = entries@;
            entries.set(i, (id, value));
            proof {
                lemma_replaced(before, entries@, id, value, i as int);
            }
        },
        None => {
            entries.push((id, value));
        },
    }
}

fn forget<V>(entries: &mut Vec<(u32, V)>, id: u32)
    requires
        distinct_ids(old(entries)@),
    ensures
        distinct_ids(final(entries)@),
        final(entries)@ == drop_entry(old(entries)@, id),
{
    proof {
        drop_then_missing(entries@, id);
    }
    let ghost before = entries@;
    let mut kept: Vec<(u32, V)> = Vec::new();
    let mut all: Vec<(u32, V)> = Vec::new();
    std::mem::swap(&mut all, entries);
    assert(before.take(before.len() as int) =~= before);
    while all.len() > 0
        invariant
            all@ == before.take(all@.len() as int),
            all@.len() <= before.len(),
            reversed_drop(before, all@.len() as int, id) == kept@,
        decreases all@.len(),
    {
        let ghost n = all@.len() as int;
        match all.pop() {
            Some(pair) => {
                assert(all@ =~= before.take(n - 1));
                assert(pair == before[n - 1]);
                if pair.0 != id {
                    kept.push(pair);
                }
            },
            None => {},
        }
    }
    let ghost rev = kept@;
    while kept.len() > 0
        invariant
            kept@ == rev.take(kept@.len() as int),
            kept@.len() <= rev.len(),
            entries@ == rev.skip(kept@.len() as int).reverse(),
        decreases kept@.len(),
    {
        let ghost n = kept@.len() as int;
        match kept.pop() {
            Some(pair) => {
                assert(kept@ =~= rev.take(n - 1));
                entries.push(pair);
                assert(entries@ =~= rev.skip(n - 1).reverse());
            },
            None => {},
        }
    }
    assert(rev.skip(0) =~= rev);
    proof {
        lemma_reversed_drop(before, 0, id);
        assert(before.skip(0) =~= before);
    }
}

/// The entries from `from` on that are kept, last first.
spec fn reversed_drop<V>(entries: Seq<(u32, V)>, from: int, id: u32) -> Seq<(u32, V)>
    decreases entries.len() - from,
{
    if from >= entries.len() {
        Seq::empty()
    } else {
        let rest = reversed_drop(entries, from + 1, id);
        if entries[from].0 == id {
            rest
        } else {
            rest.push(entries[from])
        }
    }
}

proof fn lemma_reversed_drop<V>(entries: Seq<(u32, V)>, from: int, id: u32)
    requires
        0 <= from <= entries.len(),
    ensures
        reversed_drop(entries, from, id).reverse() == drop_entry(entries.skip(from), id),
    decreases entries.len() - from,
{
    if from < entries.len() {
        lemma_reversed_drop(entries, from + 1, id);
        lemma_drop_front(entries.skip(from), id);
        assert(entries.skip(from).skip(1) =~= entries.skip(from + 1));
        let rest = reversed_drop(entries, from + 1, id);
        if entries[from].0 != id {
            assert(rest.push(entries[from]).reverse() =~= seq![entries[from]] + rest.reverse());
        }
    } else {
        assert(entries.skip(from) =~= Seq::<(u32, V)>::empty());
        assert(reversed_drop(entries, from, id).reverse() =~= Seq::<(u32, V)>::empty());
    }
}

proof fn lemma_drop_front<V>(entries: Seq<(u32, V)>, id: u32)
    requires
        entries.len() > 0,
    ensures
        drop_entry(entries, id) == if entries[0].0 == id {
            drop_entry(entries.skip(1), id)
        } else {
            seq![entries[0]] + drop_entry(entries.skip(1), id)
        },
    decreases entries.len(),
{
    if entries.len() == 1 {
        assert(entries.drop_last() =~= Seq::<(u32, V)>::empty());
        assert(entries.skip(1) =~= Seq::<(u32, V)>::empty());
        reveal_with_fuel(drop_entry, 2);
        assert(drop_entry(entries, id) =~= if entries[0].0 == id {
            drop_entry(entries.skip(1), id)
        } else {
            seq![entries[0]] + drop_entry(entries.skip(1), id)
        });
    } else {
        lemma_drop_front(entries.drop_last(), id);
        assert(entries.drop_last().skip(1) =~= entries.skip(1).drop_last());
        assert(entries.skip(1).last() == entries.last());
        assert(drop_entry(entries, id) =~= if entries[0].0 == id {
            drop_entry(entries.skip(1), id)
        } else {
            seq![entries[0]] + drop_entry(entries.skip(1), id)
        });
    }
}

fn fresh_toplevel() -> (t: ToplevelData)
    ensures
        is_fresh_toplevel(t),
{
    ToplevelData {
        title: String::new(),
        app_id: None,
        outputs: Vec::new(),
        identifier: None,
        closed: false,
        ready: false,
    }
}

/// Takes an event of a window: an unknown one is passed over, a closed one goes.
fn window_event(
    windows: &mut Vec<(u32, ToplevelData)>,
    id: u32,
    event: ToplevelEvent,
    title_is_enough: bool,
) -> (known: bool)
    requires
        distinct_ids(old(windows)@),
    ensures
        distinct_ids(final(windows)@),
        known == (data_of(old(windows)@, id) is Some),
        windows_after(old(windows)@, id, event, title_is_enough, final(windows)@),
{
    match place_of(windows, id) {
        None => false,
        Some(i) => {
            let ghost before = windows@;
            match event {
                ToplevelEvent::Closed => {
                    forget(windows, id);
                },
                other => {
                    let mut taken: ToplevelData = fresh_toplevel();
                    std::mem::swap(&mut taken, &mut windows[i].1);
                    let ghost t = taken;
                    taken.on_event(other, title_is_enough);
                    let ghost n = taken;
                    windows.set(i, (id, taken));
                    proof {
                        put_then_found(before, id, n);
                        lemma_replaced(before, windows@, id, n, i as int);
                    }
                },
            }
            true
        },
    }
}

/// What the windows become by an event of the window `id`.
pub open spec fn windows_after(
    before: Seq<(u32, ToplevelData)>,
    id: u32,
    event: ToplevelEvent,
    title_is_enough: bool,
    after: Seq<(u32, ToplevelData)>,
) -> bool {
    match data_of(before, id) {
        None => after == before,
        Some(t) => if event is Closed {
            after == drop_entry(before, id)
        } else {
            &&& data_of(after, id) matches Some(n)
            &&& toplevel_after(t, event, title_is_enough, n)
            &&& after == put_entry(before, id, n)
        },
    }
}

impl Desktop {
    /// The numbers of outputs and windows are distinct.
    pub open spec fn wf(self) -> bool {
        &&& distinct_ids(self.outputs@)
        &&& distinct_ids(self.wlr@)
        &&& distinct_ids(self.ext@)
    }

    /// Nothing was told yet.
    pub fn new() -> (desktop: Self)
        ensures
            desktop.wf(),
            desktop.outputs@.len() == 0,
            desktop.wlr@.len() == 0,
            desktop.ext@.len() == 0,
            !desktop.monitors_dirty,
            !desktop.windows_dirty,
    {
        Desktop {
            outputs: Vec::new(),
            wlr: Vec::new(),
            ext: Vec::new(),
            monitors_dirty: false,
            windows_dirty: false,
        }
    }

    /// A new output was announced.
    pub fn output_added(&mut self, id: u32)
        requires
            old(self).wf(),
        ensures
            final(self).wf(),
            final(self).outputs@ == put_entry(old(self).outputs@, id, fresh_output_data()),
            final(self).monitors_dirty,
            final(self).windows_dirty == old(self).windows_dirty,
            final(self).wlr == old(self).wlr,
            final(self).ext == old(self).ext,
    {
        let o: OutputData = fresh_output();
        put(&mut self.outputs, id, o);
        self.monitors_dirty = true;
    }

    /// An output tells of itself; one that was not announced starts afresh.
    /// Its end mark makes the listing stale.
    pub fn output_event(&mut self, id: u32, event: OutputEvent)
        requires
            old(self).wf(),
        ensures
            final(self).wf(),
            final(self).outputs@ == put_entry(
                old(self).outputs@,
                id,
                output_after(
                    match data_of(old(self).outputs@, id) {
                        Some(o) => o,
                        None => fresh_output_data(),
                    },
                    event,
                ),
            ),
            final(self).monitors_dirty == (old(self).monitors_dirty || event is Done),
            final(self).windows_dirty == old(self).windows_dirty,
            final(self).wlr == old(self).wlr,
            final(self).ext == old(self).ext,
    {
        let done: bool = match &event {
            OutputEvent::Done => true,
            _ => false,
        };
        let ghost before = self.outputs@;
        let mut data: OutputData = fresh_output();
        match place_of(&self.outputs, id) {
            Some(i) => {
                std::mem::swap(&mut data, &mut self.outputs[i].1);
                data.on_event(event);
                let ghost n = data;
                self.outputs.set(i, (id, data));
                proof {
                    put_then_found(before, id, n);
                    lemma_replaced(before, self.outputs@, id, n, i as int);
                }
            },
            None => {
                data.on_event(event);
                put(&mut self.outputs, id, data);
            },
        }
        if done {
            self.monitors_dirty = true;
        }
    }

    /// An output's logical place changes; one that was not announced is passed
    /// over. Its end mark makes the listing stale.
    pub fn logical_event(&mut self, id: u32, event: LogicalEvent)
        requires
            old(self).wf(),
        ensures
            final(self).wf(),
            final(self).windows_dirty == old(self).windows_dirty,
            final(self).wlr == old(self).wlr,
            final(self).ext == old(self).ext,
            match data_of(old(self).outputs@, id) {
                None => final(self).outputs == old(self).outputs && final(self).monitors_dirty
                    == old(self).monitors_dirty,
                Some(o) => final(self).monitors_dirty == (old(self).monitors_dirty
                    || event is Done) && final(self).outputs@ == put_entry(
                    old(self).outputs@,
                    id,
                    output_after_logical(o, event),
                ),
            },
    {
        match place_of(&self.outputs, id) {
            Some(i) => {
                let done: bool = match &event {
                    LogicalEvent::Done => true,
                    _ => false,
                };
                let ghost before = self.outputs@;
                let mut data: OutputData = fresh_output();
                std::mem::swap(&mut data, &mut self.outputs[i].1);
                data.on_logical(event);
                let ghost n = data;
                self.outputs.set(i, (id, data));
                proof {
                    put_then_found(before, id, n);
                    lemma_replaced(before, self.outputs@, id, n, i as int);
                }
                if done {
                    self.monitors_dirty = true;
                }
            },
            None => {},
        }
    }

    /// The windows of one of the protocols.
    pub open spec fn windows(self, protocol: ToplevelProtocol) -> Seq<(u32, ToplevelData)> {
        match protocol {
            ToplevelProtocol::Wlr => self.wlr@,
            ToplevelProtocol::Ext => self.ext@,
        }
    }

    /// The windows of the other protocol.
    pub open spec fn other_windows(self, protocol: ToplevelProtocol) -> Seq<(u32, ToplevelData)> {
        match protocol {
            ToplevelProtocol::Wlr => self.ext@,
            ToplevelProtocol::Ext => self.wlr@,
        }
    }

    /// A new window was announced.
    pub fn toplevel_added(&mut self, protocol: ToplevelProtocol, id: u32)
        requires
            old(self).wf(),
        ensures
            final(self).wf(),
            final(self).windows_dirty,
            final(self).monitors_dirty == old(self).monitors_dirty,
            final(self).outputs == old(self).outputs,
            final(self).other_windows(protocol) == old(self).other_windows(protocol),
            data_of(final(self).windows(protocol), id) matches Some(t) && is_fresh_toplevel(t)
                && final(self).windows(protocol) == put_entry(old(self).windows(protocol), id, t),
    {
        let t: ToplevelData = fresh_toplevel();
        proof {
            put_then_found(self.wlr@, id, t);
            put_then_found(self.ext@, id, t);
        }
        match protocol {
            ToplevelProtocol::Wlr => {
                put(&mut self.wlr, id, t);
            },
            ToplevelProtocol::Ext => {
                put(&mut self.ext, id, t);
            },
        }
        self.windows_dirty = true;
    }

    /// A window tells of itself. An unknown one is passed over; any event of a
    /// known one makes the listing stale, and a closed one goes.
    pub fn toplevel_event(&mut self, protocol: ToplevelProtocol, id: u32, event: ToplevelEvent)
        requires
            old(self).wf(),
        ensures
            final(self).wf(),
            final(self).windows_dirty == (old(self).windows_dirty || data_of(
                old(self).windows(protocol),
                id,
            ) is Some),
            final(self).monitors_dirty == old(self).monitors_dirty,
            final(self).outputs == old(self).outputs,
            final(self).other_windows(protocol) == old(self).other_windows(protocol),
            windows_after(
                old(self).windows(protocol),
                id,
                event,
                protocol == ToplevelProtocol::Wlr,
                final(self).windows(protocol),
            ),
    {
        let known: bool = match protocol {
            ToplevelProtocol::Wlr => window_event(&mut self.wlr, id, event, true),
            ToplevelProtocol::Ext => window_event(&mut self.ext, id, event, false),
        };
        if known {
            self.windows_dirty = true;
        }
    }

    /// The compositor stopped telling of windows.
    pub fn toplevels_finished(&mut self)
        ensures
            *final(self) == (Desktop { windows_dirty: true, ..*old(self) }),
    {
        self.windows_dirty = true;
    }

    /// The new listing and what has changed, where anything has; the desktop
    /// then counts as listed.
    pub fn recompute(&mut self) -> (out: Option<(Snapshot, Vec<SourceChange>)>)
        ensures
            match out {
                None => !old(self).monitors_dirty && !old(self).windows_dirty && *final(self)
                    == *old(self),
                Some(news) => {
                    &&& old(self).monitors_dirty || old(self).windows_dirty
                    &&& *final(self) == (Desktop {
                        monitors_dirty: false,
                        windows_dirty: false,
                        ..*old(self)
                    })
                    &&& monitors_view(news.0.monitors@) == listed_monitors(old(self).outputs@)
                    &&& windows_view(news.0.windows@) == listed_windows(
                        old(self).wlr@,
                        old(self).outputs@,
                    ) + listed_windows(old(self).ext@, old(self).outputs@)
                    &&& news.1@ == (if old(self).monitors_dirty {
                        seq![SourceChange::Monitors]
                    } else {
                        Seq::empty()
                    }) + (if old(self).windows_dirty {
                        seq![SourceChange::Windows]
                    } else {
                        Seq::empty()
                    })
                },
            },
    {
        if !self.monitors_dirty && !self.windows_dirty {
            return None;
        }
        let monitors: Vec<MonitorInfo> = list_monitors(&self.outputs);
        let mut windows: Vec<WindowInfo> = Vec::new();
        assert(windows_view(windows@) =~= Seq::<WindowEntry>::empty());
        list_windows(&mut windows, &self.wlr, &self.outputs);
        list_windows(&mut windows, &self.ext, &self.outputs);
        assert(windows_view(windows@) =~= listed_windows(self.wlr@, self.outputs@)
            + listed_windows(self.ext@, self.outputs@));
        let mut changes: Vec<SourceChange> = Vec::new();
        if self.monitors_dirty {
            changes.push(SourceChange::Monitors);
        }
        if self.windows_dirty {
            changes.push(SourceChange::Windows);
        }
        assert(changes@ =~= (if self.monitors_dirty {
            seq![SourceChange::Monitors]
        } else {
            Seq::empty()
        }) + (if self.windows_dirty {
            seq![SourceChange::Windows]
        } else {
            Seq::empty()
        }));
        self.monitors_dirty = false;
        self.windows_dirty = false;
        Some((Snapshot { monitors, windows }, changes))
    }
}

fn list_monitors(outputs: &Vec<(u32, OutputData)>) -> (monitors: Vec<MonitorInfo>)
    ensures
        monitors_view(monitors@) == listed_monitors(outputs@),
{
    let mut monitors: Vec<MonitorInfo> = Vec::new();
    let mut i: usize = 0;
    assert(monitors_view(monitors@) =~= Seq::<Monitor>::empty());
    assert(outputs@.take(0) =~= Seq::<(u32, OutputData)>::empty());
    while i < outputs.len()
        invariant
            i <= outputs@.len(),
            monitors_view(monitors@) == listed_monitors(outputs@.take(i as int)),
        decreases outputs@.len() - i,
    {
        assert(outputs@.take(i + 1).drop_last() =~= outputs@.take(i as int));
        if outputs[i].1.ready {
            let ghost before = monitors@;
            let m: MonitorInfo = list_monitor(&outputs[i].1);
            let ghost shown = m@;
            monitors.push(m);
            assert(monitors_view(monitors@) =~= monitors_view(before).push(shown));
        }
        i = i + 1;
    }
    assert(outputs@.take(outputs@.len() as int) =~= outputs@);
    monitors
}

fn list_windows(
    out: &mut Vec<WindowInfo>,
    windows: &Vec<(u32, ToplevelData)>,
    outputs: &Vec<(u32, OutputData)>,
)
    ensures
        windows_view(final(out)@) == windows_view(old(out)@) + listed_windows(windows@, outputs@),
{
    let mut i: usize = 0;
    assert(windows@.take(0) =~= Seq::<(u32, ToplevelData)>::empty());
    assert(windows_view(out@) =~= windows_view(out@) + listed_windows(windows@.take(0), outputs@));
    while i < windows.len()
        invariant
            i <= windows@.len(),
            windows_view(out@) == windows_view(old(out)@) + listed_windows(
                windows@.take(i as int),
                outputs@,
            ),
        decreases windows@.len() - i,
    {
        assert(windows@.take(i + 1).drop_last() =~= windows@.take(i as int));
        let ghost so_far = listed_windows(windows@.take(i as int), outputs@);
        if windows[i].1.ready && !windows[i].1.closed {
            let ghost before = out@;
            let w: WindowInfo = list_window(windows[i].0, &windows[i].1, outputs);
            let ghost shown = w@;
            out.push(w);
            assert(windows_view(out@) =~= windows_view(before).push(shown));
            assert(windows_view(old(out)@) + so_far.push(shown) =~= (windows_view(old(out)@)
                + so_far).push(shown));
        }
        i = i + 1;
    }
    assert(windows@.take(windows@.len() as int) =~= windows@);
}

/// The length that two stretches share: one of `a_len` from `a` on, and one of
/// `b_len` from `b` on.
pub open spec fn overlap(a: int, a_len: int, b: int, b_len: int) -> int {
    let from = if a > b {
        a
    } else {
        b
    };
    let to = if a + a_len < b + b_len {
        a + a_len
    } else {
        b + b_len
    };
    if to > from {
        to - from
    } else {
        0
    }
}

/// The area that two rectangles share.
pub open spec fn shared_area(a: Geometry, b: Geometry) -> int {
    overlap(a.x as int, a.width as int, b.x as int, b.width as int) * overlap(
        a.y as int,
        a.height as int,
        b.y as int,
        b.height as int,
    )
}

fn length_shared(a: i32, a_len: u32, b: i32, b_len: u32) -> (n: i128)
    ensures
        n == overlap(a as int, a_len as int, b as int, b_len as int),
        0 <= n <= u32::MAX,
{
    let a_end: i128 = a as i128 + a_len as i128;
    let b_end: i128 = b as i128 + b_len as i128;
    let from: i128 = if a > b {
        a as i128
    } else {
        b as i128
    };
    let to: i128 = if a_end < b_end {
        a_end
    } else {
        b_end
    };
    if to > from {
        to - from
    } else {
        0
    }
}

fn area_shared(a: &Geometry, b: &Geometry) -> (area: i128)
    ensures
        area == shared_area(*a, *b),
        area >= 0,
{
    let w: i128 = length_shared(a.x, a.width, b.x, b.width);
    let h: i128 = length_shared(a.y, a.height, b.y, b.height);
    assert(0 <= w * h <= u32::MAX * u32::MAX) by (nonlinear_arith)
        requires
            0 <= w <= u32::MAX,
            0 <= h <= u32::MAX,
    ;
    w * h
}

/// The monitor that shares the largest area with the rectangle, the first of
/// several; none where the rectangle is off all of them.
pub fn monitor_for(monitors: &[MonitorInfo], geo: &Geometry) -> (id: Option<String>)
    ensures
        match id {
            Some(s) => exists|i: int|
                0 <= i < monitors@.len() && s@ == (#[trigger] monitors@[i]).id@ && shared_area(
                    *geo,
                    monitors@[i].geometry,
                ) > 0 && (forall|j: int|
                    0 <= j < monitors@.len() ==> shared_area(
                        *geo,
                        (#[trigger] monitors@[j]).geometry,
                    ) <= shared_area(*geo, monitors@[i].geometry)) && (forall|j: int|
                    0 <= j < i ==> shared_area(*geo, (#[trigger] monitors@[j]).geometry)
                        < shared_area(*geo, monitors@[i].geometry)),
            None => forall|j: int|
                0 <= j < monitors@.len() ==> shared_area(*geo, (#[trigger] monitors@[j]).geometry)
                    == 0,
        },
{
    let mut best: usize = 0;
    let mut best_area: i128 = 0;
    let mut i: usize = 0;
    while i < monitors.len()
        invariant
            i <= monitors@.len(),
            best_area >= 0,
            best_area > 0 ==> best < i && best_area == shared_area(
                *geo,
                monitors@[best as int].geometry,
            ),
            forall|j: int|
                0 <= j < i ==> shared_area(*geo, (#[trigger] monitors@[j]).geometry) <= best_area,
            best_area > 0 ==> forall|j: int|
                0 <= j < best ==> shared_area(*geo, (#[trigger] monitors@[j]).geometry) < best_area,
        decreases monitors@.len() - i,
    {
        let area: i128 = area_shared(geo, &monitors[i].geometry);
        if area > best_area {
            best = i;
            best_area = area;
        }
        i = i + 1;
    }
    proof {
        assert forall|j: int| 0 <= j < monitors@.len() implies shared_area(
            *geo,
            (#[trigger] monitors@[j]).geometry,
        ) >= 0 by {
            lemma_area_not_negative(*geo, monitors@[j].geometry);
        }
    }
    if best_area > 0 {
        Some(monitors[best].id.clone())
    } else {
        None
    }
}

proof fn lemma_area_not_negative(a: Geometry, b: Geometry)
    ensures
        shared_area(a, b) >= 0,
{
    let w = overlap(a.x as int, a.width as int, b.x as int, b.width as int);
    let h = overlap(a.y as int, a.height as int, b.y as int, b.height as int);
    assert(w * h >= 0) by (nonlinear_arith)
        requires
            w >= 0,
            h >= 0,
    ;
}

/// The place of the first zero byte from `from` on, or the length.
pub open spec fn zero_from(raw: Seq<u8>, from: int) -> int
    decreases raw.len() - from,
{
    if from >= raw.len() {
        raw.len() as int
    } else if raw[from] == 0 {
        from
    } else {
        zero_from(raw, from + 1)
    }
}

/// The pieces between zero bytes that are not empty.
pub open spec fn class_parts(raw: Seq<u8>) -> Seq<Seq<u8>>
    decreases raw.len(),
{
    let at = zero_from(raw, 0);
    let head = if at > 0 {
        seq![raw.take(at)]
    } else {
        Seq::empty()
    };
    if 0 <= at < raw.len() {
        head + class_parts(raw.skip(at + 1))
    } else {
        head
    }
}

/// The class of a window: the second piece of its class property, else the
/// first.
pub open spec fn class_of(raw: Seq<u8>) -> Option<Seq<u8>> {
    let parts = class_parts(raw);
    if parts.len() >= 2 {
        Some(parts[1])
    } else if parts.len() == 1 {
        Some(parts[0])
    } else {
        None
    }
}

/// The bytes of the class of a window, out of its class property.
pub fn window_class(raw: &[u8]) -> (class: Option<Vec<u8>>)
    ensures
        match class {
            Some(c) => class_of(raw@) == Some(c@),
            None => class_of(raw@) is None,
        },
{
    let mut first: Option<Vec<u8>> = None;
    let mut from: usize = 0;
    let ghost all = class_parts(raw@);
    assert(raw@.skip(0) =~= raw@);
    loop
        invariant
            from <= raw@.len(),
            all == class_parts(raw@),
            match first {
                None => all == class_parts(raw@.skip(from as int)),
                Some(f) => all == seq![f@] + class_parts(raw@.skip(from as int)),
            },
        decreases raw@.len() - from,
    {
        let mut at: usize = from;
        let ghost rest = raw@.skip(from as int);
        while at < raw.len() && raw[at] != 0
            invariant
                from <= at <= raw@.len(),
                rest == raw@.skip(from as int),
                zero_from(rest, at - from) == zero_from(rest, 0),
            decreases raw@.len() - at,
        {
            at = at + 1;
        }
        proof {
            assert(zero_from(rest, 0) == at - from);
            assert(rest.take(at - from) =~= raw@.subrange(from as int, at as int));
        }
        if at > from {
            let piece: Vec<u8> = copy_range(raw, from, at);
            match first {
                Some(_) => {
                    assert(class_parts(rest)[0] == piece@);
                    assert(all[1] == piece@);
                    return Some(piece);
                },
                None => {
                    first = Some(piece);
                },
            }
        }
        if at == raw.len() {
            assert(class_parts(rest) =~= if at > from {
                seq![rest.take(at - from)]
            } else {
                Seq::empty()
            });
            return first;
        }
        proof {
            assert(rest.skip(at - from + 1) =~= raw@.skip(at + 1));
        }
        from = at + 1;
    }
}

/// Whether a window belongs into a picker: it names no type, or the normal one
/// among its types.
pub fn keep_window(types: &[u32], normal: u32) -> (keep: bool)
    ensures
        keep == (types@.len() == 0 || types@.contains(normal)),
{
    if types.len() == 0 {
        return true;
    }
    let mut i: usize = 0;
    while i < types.len()
        invariant
            i <= types@.len(),
            forall|k: int| 0 <= k < i ==> types@[k] != normal,
        decreases types@.len() - i,
    {
        if types[i] == normal {
            return true;
        }
        i = i + 1;
    }
    false
}

/// What a change of a property of the root window means: the list of windows,
/// the active window and titles all touch the windows.
pub fn property_change(atom: u32, client_list: u32, active: u32, title: u32) -> (change: Option<
    SourceChange,
>)
    ensures
        change == (if atom == client_list || atom == active || atom == title {
            Some(SourceChange::Windows)
        } else {
            None
        }),
{
    if atom == client_list || atom == active || atom == title {
        Some(SourceChange::Windows)
    } else {
        None
    }
}

/// The bytes of a row of an X11 image.
pub fn x11_stride(width: u32, bits_per_pixel: u8) -> (stride: u32)
    requires
        width * (bits_per_pixel / 8) <= u32::MAX,
    ensures
        stride == width * (bits_per_pixel / 8),
{
    width * (bits_per_pixel / 8) as u32
}

/// What the compositor tells of an output shows in its listing: its name, its
/// description, its make and model, its logical place and size, its scale, and
/// the rate of the mode in use.
pub proof fn outputs_are_listed_as_told(
    o: OutputData,
    name: String,
    other: String,
    x: i32,
    y: i32,
    w: i32,
    h: i32,
    n: i32,
)
    requires
        w >= 0,
        h >= 0,
        n >= 1,
    ensures
        monitor_of(output_after(o, OutputEvent::Name { name })).id == name@,
        monitor_of(output_after(o, OutputEvent::Description { description: name })).name == name@,
        o.description is None ==> monitor_of(output_after(o, OutputEvent::Name { name })).name
            == name@,
        name@.len() > 0 && other@.len() > 0 ==> ({
            let m = monitor_of(
                output_after(o, OutputEvent::Geometry { make: name, model: other }),
            );
            m.make == Some(name@) && m.model == Some(other@)
        }),
        monitor_of(output_after_logical(o, LogicalEvent::Position { x, y })).geometry == (Geometry {
            x,
            y,
            ..monitor_of(o).geometry
        }),
        monitor_of(output_after_logical(o, LogicalEvent::Size { width: w, height: h })).geometry
            == (Geometry { width: w as u32, height: h as u32, ..monitor_of(o).geometry }),
        monitor_of(output_after(o, OutputEvent::Scale { factor: n })).scale == n,
        monitor_of(
            output_after(o, OutputEvent::Mode { refresh: n, current: true }),
        ).refresh_mhz == Some(n as u32),
        output_after(o, OutputEvent::Mode { refresh: n, current: false }) == o,
        output_after(o, OutputEvent::Done).ready,
        o.name is None ==> monitor_of(o).id == "wl_output"@,
        !monitor_of(o).primary,
{
}

/// What the protocol of the logical place tells does not override what the
/// output tells of itself, and each event leaves the rest as it was.
pub proof fn outputs_know_themselves_best(o: OutputData, name: String, e: LogicalEvent)
    ensures
        o.name is Some ==> output_after_logical(o, LogicalEvent::Name { name }) == o,
        o.name is None ==> output_after_logical(o, LogicalEvent::Name { name }) == (OutputData {
            name: Some(name),
            ..o
        }),
        o.description is Some ==> output_after_logical(
            o,
            LogicalEvent::Description { description: name },
        ) == o,
        o.description is None ==> output_after_logical(
            o,
            LogicalEvent::Description { description: name },
        ) == (OutputData { description: Some(name), ..o }),
        output_after_logical(o, e).ready == o.ready,
        output_after_logical(o, e).scale == o.scale,
        output_after_logical(o, e).refresh_mhz == o.refresh_mhz,
{
}

/// What the compositor tells of a window shows in its listing.
pub proof fn windows_are_listed_as_told(
    id: u32,
    t: ToplevelData,
    n: ToplevelData,
    outputs: Seq<(u32, OutputData)>,
    words: String,
    output: u32,
    enough: bool,
)
    ensures
        toplevel_after(t, ToplevelEvent::Title { title: words }, enough, n) ==> window_of(
            id,
            n,
            outputs,
        ).title == words@ && n.ready == (t.ready || enough),
        toplevel_after(t, ToplevelEvent::AppId { app_id: words }, enough, n) ==> window_of(
            id,
            n,
            outputs,
        ).app_id == Some(words@) && n.ready == t.ready,
        toplevel_after(t, ToplevelEvent::Identifier { identifier: words }, enough, n) ==> window_of(
            id,
            n,
            outputs,
        ).id == words@,
        t.identifier is None ==> window_of(id, t, outputs).id == decimal(id as nat),
        toplevel_after(t, ToplevelEvent::Done, enough, n) ==> n.ready && n.closed == t.closed,
        toplevel_after(t, ToplevelEvent::Closed, enough, n) ==> n.closed,
        toplevel_after(t, ToplevelEvent::OutputEnter { output }, enough, n) ==> n.outputs@.contains(
            output,
        ),
        toplevel_after(t, ToplevelEvent::OutputEnter { output }, enough, n) && t.outputs@.len() == 0
            ==> window_of(id, n, outputs).on_monitor == match data_of(outputs, output) {
            Some(o) => text(o.name),
            None => None,
        },
        toplevel_after(t, ToplevelEvent::OutputLeave { output }, enough, n)
            ==> !n.outputs@.contains(output),
        t.outputs@.len() == 0 ==> window_of(id, t, outputs).on_monitor is None,
{
    lemma_without(t.outputs@, output);
    if toplevel_after(t, ToplevelEvent::OutputEnter { output }, enough, n) {
        if !t.outputs@.contains(output) {
            assert(n.outputs@[t.outputs@.len() as int] == output);
        }
    }
}

proof fn lemma_without(outputs: Seq<u32>, output: u32)
    ensures
        !without_output(outputs, output).contains(output),
        forall|o: u32| o != output ==> (#[trigger] without_output(outputs, output).contains(o)
            == outputs.contains(o)),
    decreases outputs.len(),
{
    if outputs.len() > 0 {
        let rest = outputs.drop_last();
        lemma_without(rest, output);
        let w = without_output(outputs, output);
        let wr = without_output(rest, output);
        assert(outputs =~= rest.push(outputs.last()));
        assert forall|o: u32| o != output implies #[trigger] w.contains(o) == outputs.contains(
            o,
        ) by {
            vstd::seq_lib::lemma_seq_contains_after_push(rest, outputs.last(), o);
            vstd::seq_lib::lemma_seq_contains_after_push(wr, outputs.last(), o);
        }
        vstd::seq_lib::lemma_seq_contains_after_push(wr, outputs.last(), output);
    }
}

/// A window leaves the output that it leaves, and no other.
pub proof fn windows_leave_what_they_leave(outputs: Seq<u32>, output: u32, other: u32)
    requires
        other != output,
    ensures
        !without_output(outputs, output).contains(output),
        without_output(outputs, output).contains(other) == outputs.contains(other),
{
    lemma_without(outputs, output);
}

/// Outputs are listed once they are complete, in the order in which they came;
/// windows too, as long as they are open.
pub proof fn complete_ones_are_listed_in_order(
    outputs: Seq<(u32, OutputData)>,
    o: (u32, OutputData),
    windows: Seq<(u32, ToplevelData)>,
    w: (u32, ToplevelData),
)
    ensures
        o.1.ready ==> listed_monitors(outputs.push(o)) == listed_monitors(outputs).push(
            monitor_of(o.1),
        ),
        !o.1.ready ==> listed_monitors(outputs.push(o)) == listed_monitors(outputs),
        w.1.ready && !w.1.closed ==> listed_windows(windows.push(w), outputs) == listed_windows(
            windows,
            outputs,
        ).push(window_of(w.0, w.1, outputs)),
        !w.1.ready || w.1.closed ==> listed_windows(windows.push(w), outputs) == listed_windows(
            windows,
            outputs,
        ),
        listed_monitors(Seq::empty()).len() == 0,
        listed_windows(Seq::empty(), outputs).len() == 0,
{
    assert(outputs.push(o).drop_last() =~= outputs);
    assert(windows.push(w).drop_last() =~= windows);
}

/// A window that was closed is not known any more; events of windows that are
/// not known change nothing, and events of one window leave the others alone.
pub proof fn closed_windows_are_forgotten(
    before: Seq<(u32, ToplevelData)>,
    after: Seq<(u32, ToplevelData)>,
    id: u32,
    other: u32,
    event: ToplevelEvent,
    enough: bool,
)
    requires
        distinct_ids(before),
        windows_after(before, id, event, enough, after),
        other != id,
    ensures
        event is Closed ==> data_of(after, id) is None,
        !(event is Closed) && data_of(before, id) is Some ==> data_of(after, id) is Some,
        data_of(before, id) is None ==> after == before,
        data_of(after, other) == data_of(before, other),
{
    drop_then_missing(before, id);
    if let Some(n) = data_of(after, id) {
        put_then_found(before, id, n);
    }
}

/// The shared length is that of the stretch of the points that lie in both.
pub proof fn shared_length_counts_shared_points(a: int, a_len: int, b: int, b_len: int)
    requires
        a_len >= 0,
        b_len >= 0,
    ensures
        exists|from: int| #[trigger] shares_from(a, a_len, b, b_len, from),
        overlap(a, a_len, b, b_len) == overlap(b, b_len, a, a_len),
        overlap(a, a_len, b, b_len) <= a_len,
{
    let from = if a > b {
        a
    } else {
        b
    };
    assert(shares_from(a, a_len, b, b_len, from));
}

/// Whether the points that lie in both stretches are those from `from` on, as
/// many as the shared length.
pub open spec fn shares_from(a: int, a_len: int, b: int, b_len: int, from: int) -> bool {
    forall|x: int|
        #![trigger within(x, a, a_len)]
        (within(x, a, a_len) && within(x, b, b_len)) == within(
            x,
            from,
            overlap(a, a_len, b, b_len),
        )
}

/// Whether a point lies in a stretch.
pub open spec fn within(x: int, start: int, len: int) -> bool {
    start <= x < start + len
}

/// A rectangle within another shares all of its area with it, one beside it
/// shares none, and the order of the two does not matter.
pub proof fn shared_area_is_that_of_both(a: Geometry, b: Geometry)
    ensures
        shared_area(a, b) == shared_area(b, a),
        b.x <= a.x && a.x + a.width <= b.x + b.width && b.y <= a.y && a.y + a.height <= b.y
            + b.height ==> shared_area(a, b) == a.width * a.height,
        a.x + a.width <= b.x || a.y + a.height <= b.y ==> shared_area(a, b) == 0,
{
    let w = overlap(a.x as int, a.width as int, b.x as int, b.width as int);
    let h = overlap(a.y as int, a.height as int, b.y as int, b.height as int);
    assert(w == 0 || h == 0 ==> w * h == 0) by (nonlinear_arith);
}

proof fn lemma_zero_from(raw: Seq<u8>, from: int, at: int)
    requires
        0 <= from <= at <= raw.len(),
        forall|i: int| from <= i < at ==> raw[i] != 0,
        at < raw.len() ==> raw[at] == 0,
    ensures
        zero_from(raw, from) == at,
    decreases at - from,
{
    if from < at {
        lemma_zero_from(raw, from + 1, at);
    }
}

/// The class of a window stands behind its instance; where only one of them is
/// given, it is that one.
pub proof fn class_stands_behind_the_instance(instance: Seq<u8>, class: Seq<u8>)
    requires
        instance.len() > 0,
        class.len() > 0,
        forall|i: int| 0 <= i < instance.len() ==> instance[i] != 0,
        forall|i: int| 0 <= i < class.len() ==> class[i] != 0,
    ensures
        class_of(instance + seq![0u8] + (class + seq![0u8])) == Some(class),
        class_of(instance + seq![0u8]) == Some(instance),
        class_of(Seq::empty()) is None,
{
    let none = Seq::<u8>::empty();
    lemma_zero_from(none, 0, 0);
    assert(class_parts(none) =~= Seq::<Seq<u8>>::empty());
    let tail = class + seq![0u8];
    lemma_zero_from(tail, 0, class.len() as int);
    assert(tail.take(class.len() as int) =~= class);
    assert(tail.skip((class.len() + 1) as int) =~= none);
    assert(class_parts(tail) =~= seq![class]);
    let one = instance + seq![0u8];
    lemma_zero_from(one, 0, instance.len() as int);
    assert(one.take(instance.len() as int) =~= instance);
    assert(one.skip((instance.len() + 1) as int) =~= none);
    assert(class_parts(one) =~= seq![instance]);
    let all = instance + seq![0u8] + tail;
    lemma_zero_from(all, 0, instance.len() as int);
    assert(all.take(instance.len() as int) =~= instance);
    assert(all.skip((instance.len() + 1) as int) =~= tail);
    assert(class_parts(all) =~= seq![instance, class]);
}

} // verus!
