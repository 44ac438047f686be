//! The JSON payloads of the control channel. Numbers with a fraction are kept
//! as the text that JSON spells them with.

use vstd::prelude::*;
use vstd::string::*;

use crate::chromecast::json::{
    has_member, lemma_has_member, int_entry, members_of, object, object_text, quoted, raw_entry, text_entry, Json, Member,
};
use crate::text::signed_decimal;

verus! {

/// The members that every payload has, and the others as they came.
#[derive(Debug, PartialEq, Eq)]
pub struct GenericPayload {
    pub msg_type: String,
    pub request_id: Option<i64>,
    pub extra: Vec<(String, Json)>,
}

/// Opens or closes a virtual connection.
#[derive(Debug, PartialEq, Eq)]
pub struct ConnectPayload {
    pub msg_type: String,
    pub user_agent: Option<String>,
    pub conn_type: Option<i32>,
    /// JSON as it is to be sent.
    pub origin: Option<String>,
}

/// A text member, where there is a text.
pub open spec fn optional_text(name: Seq<char>, value: Option<String>) -> Seq<Member> {
    match value {
        Some(s) => seq![(name, quoted(s@))],
        None => Seq::empty(),
    }
}

/// A member of raw JSON, where there is any.
pub open spec fn optional_raw(name: Seq<char>, value: Option<String>) -> Seq<Member> {
    match value {
        Some(s) => seq![(name, s@)],
        None => Seq::empty(),
    }
}

/// An integer member, where there is an integer.
pub open spec fn optional_int(name: Seq<char>, value: Option<i32>) -> Seq<Member> {
    match value {
        Some(n) => seq![(name, signed_decimal(n as int))],
        None => Seq::empty(),
    }
}

/// A connection payload in JSON; members without a value are left out.
pub open spec fn connect_json(p: ConnectPayload) -> Seq<char> {
    object(
        seq![("type"@, quoted(p.msg_type@))] + optional_text("userAgent"@, p.user_agent)
            + optional_int("connType"@, p.conn_type) + optional_raw("origin"@, p.origin),
    )
}

impl ConnectPayload {
    /// Opens a connection, with the type alone.
    pub fn connect() -> (p: Self)
        ensures
            p.msg_type@ == "CONNECT"@,
            p.user_agent is None,
            p.conn_type is None,
            p.origin is None,
    {
        ConnectPayload {
            msg_type: "CONNECT".to_owned(),
            user_agent: None,
            conn_type: None,
            origin: None,
        }
    }

    /// Closes a connection.
    pub fn close() -> (p: Self)
        ensures
            p.msg_type@ == "CLOSE"@,
            p.user_agent is None,
            p.conn_type is None,
            p.origin is None,
    {
        ConnectPayload {
            msg_type: "CLOSE".to_owned(),
            user_agent: None,
            conn_type: None,
            origin: None,
        }
    }

    /// The payload in JSON.
    pub fn to_json(&self) -> (text: String)
        ensures
            text@ == connect_json(*self),
    {
        let mut members: Vec<(String, String)> = Vec::new();
        members.push(text_entry("type", self.msg_type.as_str()));
        match &self.user_agent {
            Some(s) => {
                members.push(text_entry("userAgent", s.as_str()));
            },
            None => {},
        }
        match self.conn_type {
            Some(n) => {
                members.push(int_entry("connType", n as i64));
            },
            None => {},
        }
        match &self.origin {
            Some(s) => {
                members.push(raw_entry("origin", s.clone()));
            },
            None => {},
        }
        assert(members_of(members@) =~= seq![("type"@, quoted(self.msg_type@))] + optional_text(
            "userAgent"@,
            self.user_agent,
        ) + optional_int("connType"@, self.conn_type) + optional_raw("origin"@, self.origin));
        object_text(&members)
    }
}

/// A payload with nothing but its type.
pub open spec fn type_json(ty: Seq<char>) -> Seq<char> {
    object(seq![("type"@, quoted(ty))])
}

/// Keeps a connection alive.
#[derive(Debug, PartialEq, Eq)]
pub struct HeartbeatPayload {
    pub msg_type: String,
}

impl HeartbeatPayload {
    /// Asks for an answer.
    pub fn ping() -> (p: Self)
        ensures
            p.msg_type@ == "PING"@,
    {
        HeartbeatPayload { msg_type: "PING".to_owned() }
    }

    /// Answers.
    pub fn pong() -> (p: Self)
        ensures
            p.msg_type@ == "PONG"@,
    {
        HeartbeatPayload { msg_type: "PONG".to_owned() }
    }

    /// The payload in JSON.
    pub fn to_json(&self) -> (text: String)
        ensures
            text@ == type_json(self.msg_type@),
    {
        let mut members: Vec<(String, String)> = Vec::new();
        members.push(text_entry("type", self.msg_type.as_str()));
        assert(members_of(members@) =~= seq![("type"@, quoted(self.msg_type@))]);
        object_text(&members)
    }
}

/// What a receiver reports of itself.
#[derive(Debug, PartialEq, Eq)]
pub struct ReceiverStatusPayload {
    pub msg_type: String,
    pub request_id: Option<i64>,
    pub status: Option<ReceiverStatus>,
}

/// The status of a receiver.
#[derive(Debug, PartialEq, Eq)]
pub struct ReceiverStatus {
    pub applications: Vec<ApplicationInfo>,
    pub is_active_input: Option<bool>,
    pub volume: Option<VolumeInfo>,
}

/// An application on a receiver. While it starts, texts can be missing; they
/// are then empty.
#[derive(Debug, PartialEq, Eq)]
pub struct ApplicationInfo {
    pub app_id: String,
    pub display_name: String,
    pub transport_id: String,
    pub session_id: String,
    pub namespaces: Vec<NamespaceEntry>,
    pub status_text: Option<String>,
}

/// A namespace that an application speaks.
#[derive(Debug, PartialEq, Eq)]
pub struct NamespaceEntry {
    pub name: String,
}

/// The volume of a receiver.
#[derive(Debug, PartialEq, Eq)]
pub struct VolumeInfo {
    pub level: Option<String>,
    pub muted: Option<bool>,
}

/// Starts an application.
#[derive(Debug, PartialEq, Eq)]
pub struct LaunchPayload {
    pub msg_type: String,
    pub request_id: i64,
    pub app_id: String,
}

/// A request payload: type, number, and one more text.
pub open spec fn request_json(
    ty: Seq<char>,
    request_id: i64,
    name: Seq<char>,
    value: Seq<char>,
) -> Seq<char> {
    object(
        seq![
            ("type"@, quoted(ty)),
            ("requestId"@, signed_decimal(request_id as int)),
            (name, quoted(value)),
        ],
    )
}

fn request_text(ty: &str, request_id: i64, name: &str, value: &str) -> (text: String)
    ensures
        text@ == request_json(ty@, request_id, name@, value@),
{
    let mut members: Vec<(String, String)> = Vec::new();
    members.push(text_entry("type", ty));
    members.push(int_entry("requestId", request_id));
    members.push(text_entry(name, value));
    assert(members_of(members@) =~= seq![
        ("type"@, quoted(ty@)),
        ("requestId"@, signed_decimal(request_id as int)),
        (name@, quoted(value@)),
    ]);
    object_text(&members)
}

impl LaunchPayload {
    /// Starts the application `app_id`.
    pub fn new(request_id: i64, app_id: &str) -> (p: Self)
        ensures
            p.msg_type@ == "LAUNCH"@,
            p.request_id == request_id,
            p.app_id@ == app_id@,
    {
        LaunchPayload { msg_type: "LAUNCH".to_owned(), request_id, app_id: app_id.to_owned() }
    }

    /// The payload in JSON.
    pub fn to_json(&self) -> (text: String)
        ensures
            text@ == request_json(self.msg_type@, self.request_id, "appId"@, self.app_id@),
    {
        request_text(self.msg_type.as_str(), self.request_id, "appId", self.app_id.as_str())
    }
}

/// Asks for the status.
#[derive(Debug, PartialEq, Eq)]
pub struct GetStatusPayload {
    pub msg_type: String,
    pub request_id: i64,
}

/// A request payload: type and number.
pub open spec fn bare_request_json(ty: Seq<char>, request_id: i64) -> Seq<char> {
    object(
        seq![("type"@, quoted(ty)), ("requestId"@, signed_decimal(request_id as int))],
    )
}

impl GetStatusPayload {
    /// Asks for the status.
    pub fn new(request_id: i64) -> (p: Self)
        ensures
            p.msg_type@ == "GET_STATUS"@,
            p.request_id == request_id,
    {
        GetStatusPayload { msg_type: "GET_STATUS".to_owned(), request_id }
    }

    /// The payload in JSON.
    pub fn to_json(&self) -> (text: String)
        ensures
            text@ == bare_request_json(self.msg_type@, self.request_id),
    {
        let mut members: Vec<(String, String)> = Vec::new();
        members.push(text_entry("type", self.msg_type.as_str()));
        members.push(int_entry("requestId", self.request_id));
        assert(members_of(members@) =~= seq![
            ("type"@, quoted(self.msg_type@)),
            ("requestId"@, signed_decimal(self.request_id as int)),
        ]);
        object_text(&members)
    }
}

/// Stops an application.
#[derive(Debug, PartialEq, Eq)]
pub struct StopPayload {
    pub msg_type: String,
    pub request_id: i64,
    pub session_id: String,
}

impl StopPayload {
    /// Stops the application that runs as `session_id`.
    pub fn new(request_id: i64, session_id: &str) -> (p: Self)
        ensures
            p.msg_type@ == "STOP"@,
            p.request_id == request_id,
            p.session_id@ == session_id@,
    {
        StopPayload { msg_type: "STOP".to_owned(), request_id, session_id: session_id.to_owned() }
    }

    /// The payload in JSON.
    pub fn to_json(&self) -> (text: String)
        ensures
            text@ == request_json(self.msg_type@, self.request_id, "sessionId"@, self.session_id@),
    {
        request_text(
            self.msg_type.as_str(),
            self.request_id,
            "sessionId",
            self.session_id.as_str(),
        )
    }
}

/// What a player reports of itself.
#[derive(Debug, PartialEq, Eq)]
pub struct MediaStatusPayload {
    pub msg_type: String,
    pub request_id: Option<i64>,
    pub status: Vec<MediaStatus>,
}

/// The status of one player.
#[derive(Debug, PartialEq, Eq)]
pub struct MediaStatus {
    pub media_session_id: i64,
    pub player_state: Option<String>,
    pub current_time: Option<String>,
    pub media: Option<MediaInfo>,
    pub idle_reason: Option<String>,
    /// JSON as it came.
    pub extended_status: Option<String>,
    pub live_seekable_range: Option<LiveSeekableRange>,
    pub supported_media_commands: Option<i64>,
    pub playback_rate: Option<String>,
    /// JSON as it came.
    pub video_info: Option<String>,
}

/// The part of a live stream that a player can seek to.
#[derive(Debug, PartialEq, Eq)]
pub struct LiveSeekableRange {
    pub start: String,
    pub end: String,
    pub is_moving_window: bool,
    pub is_live_done: bool,
}

/// What is to be played.
#[derive(Debug, PartialEq, Eq)]
pub struct MediaInfo {
    pub content_id: String,
    pub content_type: String,
    pub stream_type: Option<String>,
    pub duration: Option<String>,
}

/// What is to be played, in JSON.
pub open spec fn media_json(m: MediaInfo) -> Seq<char> {
    object(
        seq![("contentId"@, quoted(m.content_id@)), ("contentType"@, quoted(m.content_type@))]
            + optional_text("streamType"@, m.stream_type) + optional_raw("duration"@, m.duration),
    )
}

impl MediaInfo {
    /// The media in JSON.
    pub fn to_json(&self) -> (text: String)
        ensures
            text@ == media_json(*self),
    {
        let mut members: Vec<(String, String)> = Vec::new();
        members.push(text_entry("contentId", self.content_id.as_str()));
        members.push(text_entry("contentType", self.content_type.as_str()));
        match &self.stream_type {
            Some(s) => {
                members.push(text_entry("streamType", s.as_str()));
            },
            None => {},
        }
        match &self.duration {
            Some(s) => {
                members.push(raw_entry("duration", s.clone()));
            },
            None => {},
        }
        assert(members_of(members@) =~= seq![
            ("contentId"@, quoted(self.content_id@)),
            ("contentType"@, quoted(self.content_type@)),
        ] + optional_text("streamType"@, self.stream_type) + optional_raw(
            "duration"@,
            self.duration,
        ));
        object_text(&members)
    }
}

/// Has a player load media.
#[derive(Debug, PartialEq, Eq)]
pub struct LoadPayload {
    pub msg_type: String,
    pub request_id: i64,
    pub media: MediaInfo,
    pub autoplay: bool,
    pub current_time: String,
}

/// A load request in JSON.
pub open spec fn load_json(p: LoadPayload) -> Seq<char> {
    object(
        seq![
            ("type"@, quoted(p.msg_type@)),
            ("requestId"@, signed_decimal(p.request_id as int)),
            ("media"@, media_json(p.media)),
            (
                "autoplay"@,
                if p.autoplay {
                    "true"@
                } else {
                    "false"@
                },
            ),
            ("currentTime"@, p.current_time@),
        ],
    )
}

/// A request to load the media and to play it from the start, in JSON.
pub open spec fn load_request_json(request_id: i64, media: MediaInfo) -> Seq<char> {
    object(
        seq![
            ("type"@, quoted("LOAD"@)),
            ("requestId"@, signed_decimal(request_id as int)),
            ("media"@, media_json(media)),
            ("autoplay"@, "true"@),
            ("currentTime"@, "0.0"@),
        ],
    )
}

impl LoadPayload {
    /// Loads the media and plays it from the start.
    pub fn new(request_id: i64, media: MediaInfo) -> (p: Self)
        ensures
            p.msg_type@ == "LOAD"@,
            p.request_id == request_id,
            p.media == media,
            p.autoplay,
            p.current_time@ == "0.0"@,
            load_json(p) == load_request_json(request_id, media),
    {
        LoadPayload {
            msg_type: "LOAD".to_owned(),
            request_id,
            media,
            autoplay: true,
            current_time: "0.0".to_owned(),
        }
    }

    /// The payload in JSON.
    pub fn to_json(&self) -> (text: String)
        ensures
            text@ == load_json(*self),
    {
        let mut members: Vec<(String, String)> = Vec::new();
        members.push(text_entry("type", self.msg_type.as_str()));
        members.push(int_entry("requestId", self.request_id));
        members.push(raw_entry("media", self.media.to_json()));
        let autoplay: &str = if self.autoplay {
            "true"
        } else {
            "false"
        };
        members.push(raw_entry("autoplay", autoplay.to_owned()));
        members.push(raw_entry("currentTime", self.current_time.clone()));
        assert(members_of(members@) =~= seq![
            ("type"@, quoted(self.msg_type@)),
            ("requestId"@, signed_decimal(self.request_id as int)),
            ("media"@, media_json(self.media)),
            (
                "autoplay"@,
                if self.autoplay {
                    "true"@
                } else {
                    "false"@
                },
            ),
            ("currentTime"@, self.current_time@),
        ]);
        object_text(&members)
    }
}

/// What a receiver reads out of a request: its type, its number, and the text
/// under the name that was given.
pub proof fn requests_are_read_back(ty: Seq<char>, id: i64, name: Seq<char>, value: Seq<char>)
    ensures
        has_member(type_json(ty), "type"@, quoted(ty)),
        has_member(bare_request_json(ty, id), "type"@, quoted(ty)),
        has_member(bare_request_json(ty, id), "requestId"@, signed_decimal(id as int)),
        has_member(request_json(ty, id, name, value), "type"@, quoted(ty)),
        has_member(request_json(ty, id, name, value), "requestId"@, signed_decimal(id as int)),
        has_member(request_json(ty, id, name, value), name, quoted(value)),
{
    lemma_has_member(seq![("type"@, quoted(ty))], 0);
    let bare = seq![("type"@, quoted(ty)), ("requestId"@, signed_decimal(id as int))];
    lemma_has_member(bare, 0);
    lemma_has_member(bare, 1);
    let full = seq![
        ("type"@, quoted(ty)),
        ("requestId"@, signed_decimal(id as int)),
        (name, quoted(value)),
    ];
    lemma_has_member(full, 0);
    lemma_has_member(full, 1);
    lemma_has_member(full, 2);
}

/// What a receiver reads out of a request to load: the number, the media under
/// its address and kind, and that it is to be played from the start at once.
pub proof fn load_request_is_read_back(id: i64, media: MediaInfo)
    ensures
        ({
            let text = load_request_json(id, media);
            &&& has_member(text, "type"@, quoted("LOAD"@))
            &&& has_member(text, "requestId"@, signed_decimal(id as int))
            &&& has_member(text, "autoplay"@, "true"@)
            &&& has_member(text, "currentTime"@, "0.0"@)
            &&& has_member(text, "media"@, media_json(media))
            &&& has_member(media_json(media), "contentId"@, quoted(media.content_id@))
            &&& has_member(media_json(media), "contentType"@, quoted(media.content_type@))
            &&& media.stream_type matches Some(t) ==> has_member(
                media_json(media),
                "streamType"@,
                quoted(t@),
            )
        }),
{
    let all = seq![
        ("type"@, quoted("LOAD"@)),
        ("requestId"@, signed_decimal(id as int)),
        ("media"@, media_json(media)),
        ("autoplay"@, "true"@),
        ("currentTime"@, "0.0"@),
    ];
    lemma_has_member(all, 0);
    lemma_has_member(all, 1);
    lemma_has_member(all, 2);
    lemma_has_member(all, 3);
    lemma_has_member(all, 4);
    let members = seq![
        ("contentId"@, quoted(media.content_id@)),
        ("contentType"@, quoted(media.content_type@)),
    ] + optional_text("streamType"@, media.stream_type) + optional_raw(
        "duration"@,
        media.duration,
    );
    assert(members[0] == ("contentId"@, quoted(media.content_id@)));
    assert(members[1] == ("contentType"@, quoted(media.content_type@)));
    lemma_has_member(members, 0);
    lemma_has_member(members, 1);
    if let Some(t) = media.stream_type {
        assert(members[2] == ("streamType"@, quoted(t@)));
        lemma_has_member(members, 2);
    }
}

/// A load that does not play at once says so, and starts where it is to.
pub proof fn loads_say_how_to_play(p: LoadPayload)
    ensures
        has_member(
            load_json(p),
            "autoplay"@,
            if p.autoplay {
                "true"@
            } else {
                "false"@
            },
        ),
        has_member(load_json(p), "currentTime"@, p.current_time@),
        has_member(load_json(p), "type"@, quoted(p.msg_type@)),
        has_member(load_json(p), "requestId"@, signed_decimal(p.request_id as int)),
        has_member(load_json(p), "media"@, media_json(p.media)),
{
    let all = seq![
        ("type"@, quoted(p.msg_type@)),
        ("requestId"@, signed_decimal(p.request_id as int)),
        ("media"@, media_json(p.media)),
        (
            "autoplay"@,
            if p.autoplay {
                "true"@
            } else {
                "false"@
            },
        ),
        ("currentTime"@, p.current_time@),
    ];
    lemma_has_member(all, 0);
    lemma_has_member(all, 1);
    lemma_has_member(all, 2);
    lemma_has_member(all, 3);
    lemma_has_member(all, 4);
}

/// A connection payload holds its type and what it was given, and leaves out
/// what it was not.
pub proof fn connections_hold_what_they_were_given(p: ConnectPayload)
    ensures
        has_member(connect_json(p), "type"@, quoted(p.msg_type@)),
        p.user_agent matches Some(a) ==> has_member(connect_json(p), "userAgent"@, quoted(a@)),
        p.user_agent is None && p.conn_type is None && p.origin is None ==> connect_json(p)
            == type_json(p.msg_type@),
        p.user_agent is None && p.origin is None ==> (p.conn_type matches Some(n) ==> has_member(
            connect_json(p),
            "connType"@,
            signed_decimal(n as int),
        )),
{
    let all = seq![("type"@, quoted(p.msg_type@))] + optional_text("userAgent"@, p.user_agent)
        + optional_int("connType"@, p.conn_type) + optional_raw("origin"@, p.origin);
    assert(all[0] == ("type"@, quoted(p.msg_type@)));
    lemma_has_member(all, 0);
    if let Some(a) = p.user_agent {
        assert(all[1] == ("userAgent"@, quoted(a@)));
        lemma_has_member(all, 1);
    } else if let Some(n) = p.conn_type {
        assert(all[1] == ("connType"@, signed_decimal(n as int)));
        lemma_has_member(all, 1);
    } else if p.origin is None {
        assert(all =~= seq![("type"@, quoted(p.msg_type@))]);
    }
}

} // verus!
