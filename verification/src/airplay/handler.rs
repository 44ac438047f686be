//! The entry point of the protocol.

use vstd::prelude::*;

use crate::airplay::session::{device_id_spelling, AirPlaySession, SessionState};
use crate::crypto::is_version_four;
use crate::device::uuid_spelling;
use crate::media::Codec;

verus! {

/// Makes AirPlay sessions.
#[derive(Clone, Copy, Debug, PartialEq, Eq)]
pub struct AirPlayHandler;

impl AirPlayHandler {
    /// The codecs that a session can carry.
    pub fn supported_codecs(&self) -> (codecs: Vec<Codec>)
        ensures
            codecs@ == seq![Codec::H264],
    {
        let codecs: Vec<Codec> = vec![Codec::H264];
        assert(codecs@ =~= seq![Codec::H264]);
        codecs
    }

    /// A session that is not connected, under fresh random identifiers.
    pub fn create_session(&self) -> (session: AirPlaySession)
        ensures
            session.state == SessionState::Disconnected,
            exists|id: u128|
                is_version_four(id) && session.session_id@ == #[trigger] uuid_spelling(id),
            exists|bytes: Seq<u8>|
                bytes.len() == 6 && session.client_device_id@ == #[trigger] device_id_spelling(
                    bytes,
                ),
            !session.alive,
            session.frame_counter == 0,
            session.pairing_mode is None,
            !session.pending_conn,
    {
        AirPlaySession::new()
    }
}

} // verus!
