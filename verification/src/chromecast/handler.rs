//! The entry point of the protocol, and the choice between mirroring and live
//! streaming.

use vstd::prelude::*;

use crate::chromecast::mirroring::ChromecastMirrorSession;
use crate::chromecast::session::ChromecastSession;
use crate::device::Device;
use crate::error::FerricastError;
use crate::media::Codec;

verus! {

/// A session of either kind. A mirroring session remembers its device, so that
/// live streaming can take over.
pub enum ChromecastEitherSession {
    Hls(ChromecastSession),
    Mirror { session: ChromecastMirrorSession, connected_device: Option<Device> },
}

/// What to do after an attempt to set a mirrored stream up.
pub enum SetupNext {
    /// The stream is set up.
    Done,
    /// It is not, and cannot be.
    Failed(FerricastError),
    /// The receiver does not mirror: stop the session, stream to the device
    /// live, where one is connected.
    FallBack(Option<Device>),
}

impl ChromecastEitherSession {
    /// Remembers the device that a mirroring session has connected to.
    pub fn connected(&mut self, device: Device)
        ensures
            *final(self) == match *old(self) {
                ChromecastEitherSession::Hls(s) => ChromecastEitherSession::Hls(s),
                ChromecastEitherSession::Mirror { session, .. } => ChromecastEitherSession::Mirror {
                    session,
                    connected_device: Some(device),
                },
            },
    {
        match self {
            ChromecastEitherSession::Hls(_) => {},
            ChromecastEitherSession::Mirror { session: _, connected_device } => {
                *connected_device = Some(device);
            },
        }
    }

    /// Takes the outcome of setting a stream up. Only a mirroring session that
    /// timed out falls back, and forgets its device with that.
    pub fn setup_done(&mut self, outcome: Result<(), FerricastError>) -> (next: SetupNext)
        ensures
            match outcome {
                Ok(()) => next is Done && *final(self) == *old(self),
                Err(e) => next == after_failure(*old(self), e).0 && *final(self) == after_failure(
                    *old(self),
                    e,
                ).1,
            },
    {
        match outcome {
            Ok(()) => SetupNext::Done,
            Err(e) => {
                let timed_out: bool = match &e {
                    FerricastError::Timeout(_) => true,
                    _ => false,
                };
                if timed_out {
                    match self {
                        ChromecastEitherSession::Hls(_) => {},
                        ChromecastEitherSession::Mirror { session: _, connected_device } => {
                            return SetupNext::FallBack(connected_device.take());
                        },
                    }
                }
                SetupNext::Failed(e)
            },
        }
    }

    /// Live streaming takes over.
    pub fn fall_back(&mut self, hls: ChromecastSession)
        ensures
            *final(self) == ChromecastEitherSession::Hls(hls),
    {
        *self = ChromecastEitherSession::Hls(hls);
    }

    /// Whether the session is connected and the receiver answers.
    pub fn is_alive(&self) -> (alive: bool)
        ensures
            alive == match *self {
                ChromecastEitherSession::Hls(s) => s.state matches Some(c) && c.alive,
                ChromecastEitherSession::Mirror { session, .. } => session.state matches Some(c)
                    && c.alive,
            },
    {
        match self {
            ChromecastEitherSession::Hls(s) => s.is_alive(),
            ChromecastEitherSession::Mirror { session, connected_device: _ } => session.is_alive(),
        }
    }
}

/// What follows a failed set-up, and the session after it.
pub open spec fn after_failure(session: ChromecastEitherSession, e: FerricastError) -> (
    SetupNext,
    ChromecastEitherSession,
) {
    match session {
        ChromecastEitherSession::Mirror { session, connected_device } if e is Timeout => (
            SetupNext::FallBack(connected_device),
            ChromecastEitherSession::Mirror { session, connected_device: None },
        ),
        _ => (SetupNext::Failed(e), session),
    }
}

/// A new session for a device that can mirror or cannot.
pub open spec fn session_for(mirrors: bool) -> ChromecastEitherSession {
    if mirrors {
        ChromecastEitherSession::Mirror {
            session: ChromecastMirrorSession {
                state: None,
                stream: None,
                cfg: None,
                keyframe_requested: false,
            },
            connected_device: None,
        }
    } else {
        ChromecastEitherSession::Hls(ChromecastSession { state: None, stream: None, cfg: None })
    }
}

/// Makes sessions.
#[derive(Clone, Copy, Debug, PartialEq, Eq)]
pub struct ChromecastHandler;

impl ChromecastHandler {
    /// The codecs that a session can carry.
    pub fn supported_codecs(&self) -> (codecs: Vec<Codec>)
        ensures
            codecs@ == seq![Codec::H264, Codec::Vp8],
    {
        let codecs: Vec<Codec> = vec![Codec::H264, Codec::Vp8];
        assert(codecs@ =~= seq![Codec::H264, Codec::Vp8]);
        codecs
    }

    /// A session that streams live.
    pub fn create_session(&self) -> (session: ChromecastEitherSession)
        ensures
            session == ChromecastEitherSession::Hls(
                ChromecastSession { state: None, stream: None, cfg: None },
            ),
    {
        ChromecastEitherSession::Hls(ChromecastSession::new())
    }

    /// A session for the device: mirroring where the device can, else live.
    pub fn create_session_for_device(&self, device: &Device) -> (session: ChromecastEitherSession)
        ensures
            session == session_for(device.capabilities.supports_cast_streaming),
    {
        if device.capabilities.supports_cast_streaming {
            ChromecastEitherSession::Mirror {
                session: ChromecastMirrorSession::new(),
                connected_device: None,
            }
        } else {
            ChromecastEitherSession::Hls(ChromecastSession::new())
        }
    }
}

/// A device that can mirror gets a mirroring session, any other a live one.
pub proof fn mirroring_is_for_devices_that_can(mirrors: bool)
    ensures
        session_for(mirrors) is Mirror <==> mirrors,
        session_for(mirrors) is Hls <==> !mirrors,
{
}

/// Live streaming takes over from mirroring after a time-out, with the device
/// that was connected, and from nothing else.
pub proof fn only_timed_out_mirroring_falls_back(
    mirror: ChromecastMirrorSession,
    hls: ChromecastSession,
    device: Option<Device>,
    e: FerricastError,
)
    ensures
        ({
            let mirroring = ChromecastEitherSession::Mirror {
                session: mirror,
                connected_device: device,
            };
            &&& e is Timeout ==> after_failure(mirroring, e).0 == SetupNext::FallBack(device)
            &&& e !is Timeout ==> after_failure(mirroring, e) == (SetupNext::Failed(e), mirroring)
        }),
        after_failure(ChromecastEitherSession::Hls(hls), e).0 == SetupNext::Failed(e),
        after_failure(ChromecastEitherSession::Hls(hls), e).1 == ChromecastEitherSession::Hls(hls),
{
}

} // verus!
