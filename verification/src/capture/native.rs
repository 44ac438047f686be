//! Which capture back end runs.

use vstd::prelude::*;
use vstd::string::*;

use crate::text::{ascii_lowered, lowered, str_eq};

verus! {

/// A capture back end.
#[derive(Clone, Copy, Debug, PartialEq, Eq, Structural)]
pub enum Backend {
    /// Talks to the compositor itself.
    WaylandDirect,
    /// Goes through the desktop portal.
    Pipewire,
}

/// Which back ends this build holds.
#[derive(Clone, Copy, Debug, PartialEq, Eq, Structural)]
pub struct Compiled {
    pub wayland_direct: bool,
    pub pipewire: bool,
}

impl Compiled {
    /// Whether the build holds the back end.
    pub open spec fn holds(self, backend: Backend) -> bool {
        match backend {
            Backend::WaylandDirect => self.wayland_direct,
            Backend::Pipewire => self.pipewire,
        }
    }

    /// The back end that is preferred among those built.
    pub open spec fn preferred(self) -> Backend {
        if self.wayland_direct {
            Backend::WaylandDirect
        } else {
            Backend::Pipewire
        }
    }
}

/// The back end that an override names.
pub open spec fn named_backend(name: Seq<char>) -> Option<Backend> {
    if name == "pipewire"@ {
        Some(Backend::Pipewire)
    } else if name == "wayland-direct"@ {
        Some(Backend::WaylandDirect)
    } else {
        None
    }
}

/// Whichever back end was built, the direct one first.
fn fallback(built: Compiled) -> (backend: Backend)
    requires
        built.wayland_direct || built.pipewire,
    ensures
        backend == built.preferred(),
{
    if built.wayland_direct {
        Backend::WaylandDirect
    } else {
        Backend::Pipewire
    }
}

/// The running capture.
#[derive(Debug)]
pub struct NativeCapture {
    pub backend: Backend,
    pub built: Compiled,
}

impl NativeCapture {
    /// Picks the back end: the one that the override names, else the
    /// preferred one. An override that names no built back end, and a session
    /// of X11, are not supported.
    pub fn new(forced: Option<&str>, session_type: Option<&str>, built: Compiled) -> (capture: Self)
        requires
            built.wayland_direct || built.pipewire,
            match forced {
                Some(name) => named_backend(name@) is Some && built.holds(
                    named_backend(name@)->0,
                ),
                None => !(session_type matches Some(t) && t@ == "x11"@),
            },
        ensures
            capture.built == built,
            capture.backend == match forced {
                Some(name) => named_backend(name@)->0,
                None => built.preferred(),
            },
    {
        match forced {
            Some(name) => {
                let backend: Backend = if str_eq(name, "pipewire") {
                    Backend::Pipewire
                } else {
                    Backend::WaylandDirect
                };
                NativeCapture { backend, built }
            },
            None => NativeCapture { backend: fallback(built), built },
        }
    }

    /// Whether another back end is tried after a failure.
    pub open spec fn falls_back(self) -> bool {
        self.backend == Backend::WaylandDirect && self.built.pipewire
    }

    /// Takes the failure of a start: the direct back end is replaced by the
    /// portal where that was built, and the start is tried again.
    pub fn start_failed(&mut self) -> (again: bool)
        ensures
            again == old(self).falls_back(),
            *final(self) == if again {
                NativeCapture { backend: Backend::Pipewire, ..*old(self) }
            } else {
                *old(self)
            },
    {
        if self.backend == Backend::WaylandDirect && self.built.pipewire {
            self.backend = Backend::Pipewire;
            true
        } else {
            false
        }
    }
}

/// A start is tried at most twice.
pub proof fn at_most_one_fallback(first: NativeCapture, second: NativeCapture)
    requires
        first.backend == Backend::WaylandDirect,
        first.built.pipewire,
        second == (NativeCapture { backend: Backend::Pipewire, ..first }),
    ensures
        !(second.backend == Backend::WaylandDirect && second.built.pipewire),
{
}

/// Whether the session is one of Wayland.
pub open spec fn wayland_session(wayland_display: bool, session_type: Option<Seq<char>>) -> bool {
    wayland_display || (session_type matches Some(t) && lowered(t) == "wayland"@)
}

/// Whether the session is one of Wayland: its display is set, or its type says
/// so in any case.
pub fn is_wayland_session(wayland_display: bool, session_type: Option<&str>) -> (wayland: bool)
    ensures
        wayland == wayland_session(
            wayland_display,
            match session_type {
                Some(t) => Some(t@),
                None => None,
            },
        ),
{
    wayland_display || match session_type {
        Some(t) => {
            let lower: String = ascii_lowered(t);
            str_eq(lower.as_str(), "wayland")
        },
        None => false,
    }
}

/// The back ends are called by their names, and the direct one is preferred
/// where it was built.
pub proof fn back_ends_are_called_by_their_names(name: Seq<char>, built: Compiled)
    ensures
        named_backend("pipewire"@) == Some(Backend::Pipewire),
        named_backend("wayland-direct"@) == Some(Backend::WaylandDirect),
        name != "pipewire"@ && name != "wayland-direct"@ ==> named_backend(name) is None,
        built.wayland_direct ==> built.preferred() == Backend::WaylandDirect,
        !built.wayland_direct ==> built.preferred() == Backend::Pipewire,
        built.holds(Backend::WaylandDirect) == built.wayland_direct,
        built.holds(Backend::Pipewire) == built.pipewire,
{
    reveal_strlit("pipewire");
    reveal_strlit("wayland-direct");
    assert("pipewire"@.len() == 8 && "wayland-direct"@.len() == 14);
}

/// The direct back end gives way to the portal where that was built; the portal
/// gives way to nothing.
pub proof fn direct_capture_gives_way(built: Compiled)
    ensures
        (NativeCapture { backend: Backend::WaylandDirect, built }).falls_back() == built.pipewire,
        !(NativeCapture { backend: Backend::Pipewire, built }).falls_back(),
{
}

/// A session with a display of Wayland is one of Wayland; without one, its type
/// tells, in upper or lower case.
pub proof fn displays_and_types_tell_sessions(kind: Seq<char>)
    ensures
        wayland_session(true, None),
        wayland_session(true, Some(kind)),
        !wayland_session(false, None),
        wayland_session(false, Some(kind)) <==> lowered(kind) == "wayland"@,
{
}

} // verus!
