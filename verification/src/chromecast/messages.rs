//! The messages that a sender makes.

use vstd::prelude::*;
use vstd::string::*;

use crate::chromecast::castv2::{json_envelope, CastMessage, CastV2Error, Envelope};
use crate::chromecast::namespace;
use crate::chromecast::payload::{
    bare_request_json, load_request_json, request_json, type_json, ConnectPayload, GetStatusPayload,
    HeartbeatPayload, LaunchPayload, LoadPayload, MediaInfo, StopPayload,
};

verus! {

/// The name of a sender.
pub const DEFAULT_SENDER_ID: &'static str = "sender-0";

/// The name of the platform on a receiver.
pub const DEFAULT_RECEIVER_ID: &'static str = "receiver-0";

/// What the names of senders start with.
pub const TRANSPORT_ID_PREFIX: &'static str = "sender-";

/// The application that plays media.
pub const DEFAULT_MEDIA_RECEIVER_APP_ID: &'static str = "CC1AD845";

/// The application that takes mirrored screens.
pub const MIRRORING_APP_ID: &'static str = "0F5096E8";

/// An envelope from the sender to the platform.
pub open spec fn to_platform(ns: Seq<char>, json: Seq<char>) -> Envelope {
    json_envelope(DEFAULT_SENDER_ID@, DEFAULT_RECEIVER_ID@, ns, json)
}

/// An envelope on the connection namespace with nothing but a type.
pub open spec fn connection_envelope(
    source: Seq<char>,
    destination: Seq<char>,
    ty: Seq<char>,
) -> Envelope {
    json_envelope(source, destination, namespace::CONNECTION@, type_json(ty))
}

/// Opens a virtual connection.
pub fn connect_message(source_id: &str, destination_id: &str) -> (out: Result<
    CastMessage,
    CastV2Error,
>)
    ensures
        out matches Ok(m) && m@ == connection_envelope(source_id@, destination_id@, "CONNECT"@),
{
    let p: ConnectPayload = ConnectPayload::connect();
    let json: String = p.to_json();
    proof {
        lemma_connect_json(p);
    }
    CastMessage::new_json(source_id, destination_id, namespace::CONNECTION, json)
}

/// Closes a virtual connection.
pub fn close_message(source_id: &str, destination_id: &str) -> (out: Result<
    CastMessage,
    CastV2Error,
>)
    ensures
        out matches Ok(m) && m@ == connection_envelope(source_id@, destination_id@, "CLOSE"@),
{
    let p: ConnectPayload = ConnectPayload::close();
    let json: String = p.to_json();
    proof {
        lemma_connect_json(p);
    }
    CastMessage::new_json(source_id, destination_id, namespace::CONNECTION, json)
}

proof fn lemma_connect_json(p: ConnectPayload)
    requires
        p.user_agent is None,
        p.conn_type is None,
        p.origin is None,
    ensures
        crate::chromecast::payload::connect_json(p) == type_json(p.msg_type@),
{
    let t = seq![("type"@, crate::chromecast::json::quoted(p.msg_type@))];
    let none = Seq::<crate::chromecast::json::Member>::empty();
    assert(t + none + none + none =~= t);
}

/// Asks the receiver for an answer.
pub fn ping_message() -> (out: Result<CastMessage, CastV2Error>)
    ensures
        out matches Ok(m) && m@ == to_platform(namespace::HEARTBEAT@, type_json("PING"@)),
{
    CastMessage::new_json(
        DEFAULT_SENDER_ID,
        DEFAULT_RECEIVER_ID,
        namespace::HEARTBEAT,
        HeartbeatPayload::ping().to_json(),
    )
}

/// Answers the receiver.
pub fn pong_message() -> (out: Result<CastMessage, CastV2Error>)
    ensures
        out matches Ok(m) && m@ == to_platform(namespace::HEARTBEAT@, type_json("PONG"@)),
{
    CastMessage::new_json(
        DEFAULT_SENDER_ID,
        DEFAULT_RECEIVER_ID,
        namespace::HEARTBEAT,
        HeartbeatPayload::pong().to_json(),
    )
}

/// Asks for the status of the receiver.
pub fn get_status_message(request_id: i64) -> (out: Result<CastMessage, CastV2Error>)
    ensures
        out matches Ok(m) && m@ == to_platform(
            namespace::RECEIVER@,
            bare_request_json("GET_STATUS"@, request_id),
        ),
{
    CastMessage::new_json(
        DEFAULT_SENDER_ID,
        DEFAULT_RECEIVER_ID,
        namespace::RECEIVER,
        GetStatusPayload::new(request_id).to_json(),
    )
}

/// Starts an application.
pub fn launch_message(request_id: i64, app_id: &str) -> (out: Result<CastMessage, CastV2Error>)
    ensures
        out matches Ok(m) && m@ == to_platform(
            namespace::RECEIVER@,
            request_json("LAUNCH"@, request_id, "appId"@, app_id@),
        ),
{
    CastMessage::new_json(
        DEFAULT_SENDER_ID,
        DEFAULT_RECEIVER_ID,
        namespace::RECEIVER,
        LaunchPayload::new(request_id, app_id).to_json(),
    )
}

/// Stops an application.
pub fn stop_app_message(request_id: i64, session_id: &str) -> (out: Result<
    CastMessage,
    CastV2Error,
>)
    ensures
        out matches Ok(m) && m@ == to_platform(
            namespace::RECEIVER@,
            request_json("STOP"@, request_id, "sessionId"@, session_id@),
        ),
{
    CastMessage::new_json(
        DEFAULT_SENDER_ID,
        DEFAULT_RECEIVER_ID,
        namespace::RECEIVER,
        StopPayload::new(request_id, session_id).to_json(),
    )
}

/// Has the application at `transport_id` load media.
pub fn load_media_message(request_id: i64, transport_id: &str, media: MediaInfo) -> (out: Result<
    CastMessage,
    CastV2Error,
>)
    ensures
        out matches Ok(m) && m@ == json_envelope(
            DEFAULT_SENDER_ID@,
            transport_id@,
            namespace::MEDIA@,
            load_request_json(request_id, media),
        ),
{
    CastMessage::new_json(
        DEFAULT_SENDER_ID,
        transport_id,
        namespace::MEDIA,
        LoadPayload::new(request_id, media).to_json(),
    )
}

/// The names that the protocol has for the two ends, the applications and the
/// namespaces.
pub proof fn names_are_the_protocols()
    ensures
        DEFAULT_SENDER_ID@ == "sender-0"@,
        DEFAULT_RECEIVER_ID@ == "receiver-0"@,
        DEFAULT_MEDIA_RECEIVER_APP_ID@ == "CC1AD845"@,
        MIRRORING_APP_ID@ == "0F5096E8"@,
        namespace::CONNECTION@ == "urn:x-cast:com.google.cast.tp.connection"@,
        namespace::HEARTBEAT@ == "urn:x-cast:com.google.cast.tp.heartbeat"@,
        namespace::RECEIVER@ == "urn:x-cast:com.google.cast.receiver"@,
        namespace::MEDIA@ == "urn:x-cast:com.google.cast.media"@,
        namespace::WEBRTC@ == "urn:x-cast:com.google.cast.webrtc"@,
{
}

/// What is sent to the platform goes from the sender to the receiver's platform,
/// and a connection is opened or closed between the two ends that are named.
pub proof fn messages_go_where_they_should(
    ns: Seq<char>,
    json: Seq<char>,
    source: Seq<char>,
    destination: Seq<char>,
    ty: Seq<char>,
)
    ensures
        ({
            let p = to_platform(ns, json);
            let c = connection_envelope(source, destination, ty);
            &&& p.source_id == "sender-0"@
            &&& p.destination_id == "receiver-0"@
            &&& p.namespace == ns
            &&& p.payload_utf8 == Some(json)
            &&& c.source_id == source
            &&& c.destination_id == destination
            &&& c.namespace == "urn:x-cast:com.google.cast.tp.connection"@
            &&& c.payload_utf8 == Some(type_json(ty))
        }),
{
}

} // verus!
