//! The receiver's end of the control channel. Connections, heartbeats and
//! requests to the platform are answered here; what concerns the player is
//! handed on as a command.

use vstd::prelude::*;
use vstd::string::*;

use crate::chromecast::castv2::{json_envelope, CastMessage, Envelope};
use crate::chromecast::json::{
    has_member, int_entry, items_of, json_parsed, lemma_has_member, list, list_text, members_of, object, object_text, parse,
    quoted, raw_entry, text_entry, text_of_option, tree_of, Json, Tree,
};
use crate::chromecast::messages::DEFAULT_MEDIA_RECEIVER_APP_ID;
use crate::chromecast::namespace;
use crate::chromecast::payload::{type_json, HeartbeatPayload};
use crate::crypto::{is_version_four, random_uuid};
use crate::device::{uuid_spelling, uuid_spelling_len, uuid_text};
use crate::error::FerricastError;
use crate::text::{join2, signed_decimal, str_eq};
use crate::text_map::TextMap;

verus! {

/// The tracks that a sender chose.
#[derive(Debug, PartialEq, Eq)]
pub struct TrackSelection {
    pub active_track_ids: Vec<i64>,
}

/// What a sender asks of the player. Times, volumes and rates are floating
/// point numbers, as text; times are in seconds.
pub enum MediaCommand {
    LaunchApp { app_id: String },
    StopApp,
    SetSystemVolume(String),
    SetSystemMute(bool),
    Load {
        url: String,
        content_type: Option<String>,
        start_time: String,
        autoplay: bool,
        metadata: TextMap<String>,
    },
    Play,
    Pause,
    Stop,
    Seek { position: String },
    SetPlaybackRate(String),
    EditTracks(TrackSelection),
}

/// What a sender asks of the player, in words.
pub enum Asked {
    LaunchApp(Seq<char>),
    StopApp,
    SetSystemVolume(Seq<char>),
    SetSystemMute(bool),
    Load {
        url: Seq<char>,
        content_type: Option<Seq<char>>,
        start_time: Seq<char>,
        autoplay: bool,
        metadata: Map<Seq<char>, Seq<char>>,
    },
    Play,
    Pause,
    Stop,
    Seek(Seq<char>),
    SetPlaybackRate(Seq<char>),
    EditTracks(Seq<i64>),
}

/// The texts of a map.
pub open spec fn texts(m: Map<Seq<char>, String>) -> Map<Seq<char>, Seq<char>> {
    m.map_values(|s: String| s@)
}

impl View for MediaCommand {
    type V = Asked;

    open spec fn view(&self) -> Asked {
        match *self {
            MediaCommand::LaunchApp { app_id } => Asked::LaunchApp(app_id@),
            MediaCommand::StopApp => Asked::StopApp,
            MediaCommand::SetSystemVolume(level) => Asked::SetSystemVolume(level@),
            MediaCommand::SetSystemMute(muted) => Asked::SetSystemMute(muted),
            MediaCommand::Load { url, content_type, start_time, autoplay, metadata } => Asked::Load {
                url: url@,
                content_type: text_of_option(content_type),
                start_time: start_time@,
                autoplay,
                metadata: texts(metadata@),
            },
            MediaCommand::Play => Asked::Play,
            MediaCommand::Pause => Asked::Pause,
            MediaCommand::Stop => Asked::Stop,
            MediaCommand::Seek { position } => Asked::Seek(position@),
            MediaCommand::SetPlaybackRate(rate) => Asked::SetPlaybackRate(rate@),
            MediaCommand::EditTracks(tracks) => Asked::EditTracks(tracks.active_track_ids@),
        }
    }
}

/// How far the player is.
#[derive(Debug, PartialEq, Eq)]
pub enum PlaybackState {
    Idle,
    Buffering,
    Playing,
    Paused,
    Ended,
    Error(String),
}

/// The word that the protocol has for the state of a player.
pub open spec fn state_word(state: PlaybackState) -> Seq<char> {
    match state {
        PlaybackState::Buffering => "BUFFERING"@,
        PlaybackState::Playing => "PLAYING"@,
        PlaybackState::Paused => "PAUSED"@,
        _ => "IDLE"@,
    }
}

/// What the receiver remembers of its sender.
#[derive(Debug, PartialEq, Eq)]
pub struct SessionState {
    /// The sender that connected last.
    pub sender_id: String,
    /// The transport of the launched application.
    pub transport_id: String,
    /// The session of the launched application.
    pub session_id: String,
    /// The launched application, if there is one.
    pub app_id: Option<String>,
    /// The session of the player.
    pub media_session_id: i64,
    /// What was loaded last.
    pub last_content_id: Option<String>,
    /// The kind of what was loaded last.
    pub last_content_type: Option<String>,
    /// The protocol's word for the state of the player.
    pub player_state: String,
    /// Where the player is, in seconds.
    pub current_time: String,
}

/// What the receiver remembers of its sender, in words.
pub struct Session {
    pub sender_id: Seq<char>,
    pub transport_id: Seq<char>,
    pub session_id: Seq<char>,
    pub app_id: Option<Seq<char>>,
    pub media_session_id: i64,
    pub last_content_id: Option<Seq<char>>,
    pub last_content_type: Option<Seq<char>>,
    pub player_state: Seq<char>,
    pub current_time: Seq<char>,
}

impl View for SessionState {
    type V = Session;

    open spec fn view(&self) -> Session {
        Session {
            sender_id: self.sender_id@,
            transport_id: self.transport_id@,
            session_id: self.session_id@,
            app_id: text_of_option(self.app_id),
            media_session_id: self.media_session_id,
            last_content_id: text_of_option(self.last_content_id),
            last_content_type: text_of_option(self.last_content_type),
            player_state: self.player_state@,
            current_time: self.current_time@,
        }
    }
}

impl Session {
    /// Transport and session have their identifiers, whether an application
    /// runs or not.
    pub open spec fn wf(self) -> bool {
        self.transport_id.len() > 0 && self.session_id.len() > 0
    }
}

/// Whether what is remembered, if anything is, has its identifiers.
pub open spec fn has_ids(state: Option<Session>) -> bool {
    state matches Some(s) ==> s.wf()
}

/// What is remembered, where anything is.
pub open spec fn session_of(state: Option<SessionState>) -> Option<Session> {
    match state {
        Some(s) => Some(s@),
        None => None,
    }
}

/// A session that begins: nothing is launched and nothing is loaded.
pub open spec fn fresh_session(sender_id: Seq<char>, transport: u128, session: u128) -> Session {
    Session {
        sender_id,
        transport_id: "transport-"@ + uuid_spelling(transport),
        session_id: uuid_spelling(session),
        app_id: None,
        media_session_id: 1,
        last_content_id: None,
        last_content_type: None,
        player_state: "IDLE"@,
        current_time: "0.0"@,
    }
}

impl SessionState {
    /// A session that begins, with the identifiers of its transport and of
    /// itself.
    pub fn new(sender_id: String, transport: u128, session: u128) -> (s: Self)
        ensures
            s@ == fresh_session(sender_id@, transport, session),
            s@.wf(),
    {
        proof {
            uuid_spelling_len(transport);
            uuid_spelling_len(session);
        }
        let spelled: String = uuid_text(transport);
        SessionState {
            sender_id,
            transport_id: join2("transport-", spelled.as_str()),
            session_id: uuid_text(session),
            app_id: None,
            media_session_id: 1,
            last_content_id: None,
            last_content_type: None,
            player_state: "IDLE".to_owned(),
            current_time: "0.0".to_owned(),
        }
    }
}

/// The number of the request that is answered; zero where it has none.
pub open spec fn answered_id(request_id: Option<i64>) -> int {
    match request_id {
        Some(n) => n as int,
        None => 0,
    }
}

fn answered(request_id: Option<i64>) -> (n: i64)
    ensures
        n == answered_id(request_id),
{
    match request_id {
        Some(n) => n,
        None => 0,
    }
}

/// A namespace in JSON.
pub open spec fn namespace_json(name: Seq<char>) -> Seq<char> {
    object(seq![("name"@, quoted(name))])
}

/// The launched application in JSON.
pub open spec fn application_json(s: Session, app_id: Seq<char>) -> Seq<char> {
    object(
        seq![
            ("appId"@, quoted(app_id)),
            ("displayName"@, quoted("Ferricast"@)),
            (
                "namespaces"@,
                list(
                    seq![
                        namespace_json(namespace::MEDIA@),
                        namespace_json(namespace::CONNECTION@),
                        namespace_json(namespace::HEARTBEAT@),
                    ],
                ),
            ),
            ("sessionId"@, quoted(s.session_id)),
            ("statusText"@, quoted("Ready"@)),
            ("transportId"@, quoted(s.transport_id)),
        ],
    )
}

/// The volume in JSON: it is always full.
pub open spec fn volume_json() -> Seq<char> {
    object(seq![("level"@, "1.0"@), ("muted"@, "false"@)])
}

/// The applications of a session in JSON: the launched one, if there is one.
pub open spec fn applications_json(s: Session) -> Seq<char> {
    list(
        match s.app_id {
            Some(id) => seq![application_json(s, id)],
            None => Seq::empty(),
        },
    )
}

/// The state of the platform in JSON.
pub open spec fn platform_json(s: Session) -> Seq<char> {
    object(seq![("applications"@, applications_json(s)), ("volume"@, volume_json())])
}

/// The status of the platform in JSON.
pub open spec fn receiver_status_json(s: Session, request_id: Option<i64>) -> Seq<char> {
    object(
        seq![
            ("requestId"@, signed_decimal(answered_id(request_id))),
            ("status"@, platform_json(s)),
            ("type"@, quoted("RECEIVER_STATUS"@)),
        ],
    )
}

/// The kind of what is loaded; a playlist where the sender gave none.
pub open spec fn loaded_type(s: Session) -> Seq<char> {
    match s.last_content_type {
        Some(t) => t,
        None => "application/vnd.apple.mpegurl"@,
    }
}

/// What is loaded, in JSON.
pub open spec fn loaded_json(s: Session) -> Seq<char> {
    match s.last_content_id {
        None => "null"@,
        Some(id) => object(
            seq![
                ("contentId"@, quoted(id)),
                ("contentType"@, quoted(loaded_type(s))),
                ("streamType"@, quoted("BUFFERED"@)),
            ],
        ),
    }
}

/// The state of the player in JSON.
pub open spec fn player_json(s: Session) -> Seq<char> {
    object(
        seq![
            ("currentTime"@, s.current_time),
            ("media"@, loaded_json(s)),
            ("mediaSessionId"@, signed_decimal(s.media_session_id as int)),
            ("playerState"@, quoted(s.player_state)),
            ("supportedMediaCommands"@, signed_decimal(15)),
        ],
    )
}

/// The status of the player in JSON.
pub open spec fn media_status_json(s: Session, request_id: Option<i64>) -> Seq<char> {
    object(
        seq![
            ("requestId"@, signed_decimal(answered_id(request_id))),
            ("status"@, list(seq![player_json(s)])),
            ("type"@, quoted("MEDIA_STATUS"@)),
        ],
    )
}

fn namespace_object(name: &str) -> (text: String)
    ensures
        text@ == namespace_json(name@),
{
    let mut members: Vec<(String, String)> = Vec::new();
    members.push(text_entry("name", name));
    assert(members_of(members@) =~= seq![("name"@, quoted(name@))]);
    object_text(&members)
}

fn application_object(s: &SessionState, app_id: &str) -> (text: String)
    ensures
        text@ == application_json(s@, app_id@),
{
    let mut spaces: Vec<String> = Vec::new();
    spaces.push(namespace_object(namespace::MEDIA));
    spaces.push(namespace_object(namespace::CONNECTION));
    spaces.push(namespace_object(namespace::HEARTBEAT));
    let ghost all = seq![
        namespace_json(namespace::MEDIA@),
        namespace_json(namespace::CONNECTION@),
        namespace_json(namespace::HEARTBEAT@),
    ];
    assert(items_of(spaces@) =~= all);
    let mut members: Vec<(String, String)> = Vec::new();
    members.push(text_entry("appId", app_id));
    members.push(text_entry("displayName", "Ferricast"));
    members.push(raw_entry("namespaces", list_text(&spaces)));
    members.push(text_entry("sessionId", s.session_id.as_str()));
    members.push(text_entry("statusText", "Ready"));
    members.push(text_entry("transportId", s.transport_id.as_str()));
    assert(members_of(members@) =~= seq![
        ("appId"@, quoted(app_id@)),
        ("displayName"@, quoted("Ferricast"@)),
        ("namespaces"@, list(all)),
        ("sessionId"@, quoted(s.session_id@)),
        ("statusText"@, quoted("Ready"@)),
        ("transportId"@, quoted(s.transport_id@)),
    ]);
    object_text(&members)
}

fn platform_object(s: &SessionState) -> (text: String)
    ensures
        text@ == platform_json(s@),
{
    let mut apps: Vec<String> = Vec::new();
    match &s.app_id {
        Some(id) => {
            apps.push(application_object(s, id.as_str()));
            assert(items_of(apps@) =~= seq![application_json(s@, id@)]);
        },
        None => {
            assert(items_of(apps@) =~= Seq::empty());
        },
    }
    let mut volume: Vec<(String, String)> = Vec::new();
    volume.push(raw_entry("level", "1.0".to_owned()));
    volume.push(raw_entry("muted", "false".to_owned()));
    assert(members_of(volume@) =~= seq![("level"@, "1.0"@), ("muted"@, "false"@)]);
    let mut members: Vec<(String, String)> = Vec::new();
    members.push(raw_entry("applications", list_text(&apps)));
    members.push(raw_entry("volume", object_text(&volume)));
    assert(members_of(members@) =~= seq![
        ("applications"@, applications_json(s@)),
        ("volume"@, volume_json()),
    ]);
    object_text(&members)
}

/// The status of the platform as an envelope.
pub open spec fn receiver_status(
    s: Session,
    request_id: Option<i64>,
    self_id: Seq<char>,
    sender_id: Seq<char>,
) -> Envelope {
    json_envelope(self_id, sender_id, namespace::RECEIVER@, receiver_status_json(s, request_id))
}

/// The status of the platform, for a sender.
pub fn build_receiver_status(
    s: &SessionState,
    request_id: Option<i64>,
    self_id: &str,
    sender_id: &str,
) -> (out: Result<CastMessage, FerricastError>)
    ensures
        out matches Ok(m) && m@ == receiver_status(s@, request_id, self_id@, sender_id@),
{
    let mut members: Vec<(String, String)> = Vec::new();
    members.push(int_entry("requestId", answered(request_id)));
    members.push(raw_entry("status", platform_object(s)));
    members.push(text_entry("type", "RECEIVER_STATUS"));
    assert(members_of(members@) =~= seq![
        ("requestId"@, signed_decimal(answered_id(request_id))),
        ("status"@, platform_json(s@)),
        ("type"@, quoted("RECEIVER_STATUS"@)),
    ]);
    match CastMessage::new_json(self_id, sender_id, namespace::RECEIVER, object_text(&members)) {
        Ok(m) => Ok(m),
        Err(e) => {
            let why: String = e.text();
            Err(FerricastError::Receiver(join2("encode RECEIVER_STATUS: ", why.as_str())))
        },
    }
}

fn loaded_object(s: &SessionState) -> (text: String)
    ensures
        text@ == loaded_json(s@),
{
    match &s.last_content_id {
        None => "null".to_owned(),
        Some(id) => {
            let kind: &str = match &s.last_content_type {
                Some(t) => t.as_str(),
                None => "application/vnd.apple.mpegurl",
            };
            let mut members: Vec<(String, String)> = Vec::new();
            members.push(text_entry("contentId", id.as_str()));
            members.push(text_entry("contentType", kind));
            members.push(text_entry("streamType", "BUFFERED"));
            assert(members_of(members@) =~= seq![
                ("contentId"@, quoted(id@)),
                ("contentType"@, quoted(loaded_type(s@))),
                ("streamType"@, quoted("BUFFERED"@)),
            ]);
            object_text(&members)
        },
    }
}

fn player_object(s: &SessionState) -> (text: String)
    ensures
        text@ == player_json(s@),
{
    let mut members: Vec<(String, String)> = Vec::new();
    members.push(raw_entry("currentTime", s.current_time.clone()));
    members.push(raw_entry("media", loaded_object(s)));
    members.push(int_entry("mediaSessionId", s.media_session_id));
    members.push(text_entry("playerState", s.player_state.as_str()));
    members.push(int_entry("supportedMediaCommands", 15));
    assert(members_of(members@) =~= seq![
        ("currentTime"@, s.current_time@),
        ("media"@, loaded_json(s@)),
        ("mediaSessionId"@, signed_decimal(s.media_session_id as int)),
        ("playerState"@, quoted(s.player_state@)),
        ("supportedMediaCommands"@, signed_decimal(15)),
    ]);
    object_text(&members)
}

/// The status of the player as an envelope, from the application to the
/// sender that connected last.
pub open spec fn media_status(s: Session, request_id: Option<i64>) -> Envelope {
    json_envelope(
        s.transport_id,
        s.sender_id,
        namespace::MEDIA@,
        media_status_json(s, request_id),
    )
}

/// The status of the player, for the sender that connected last.
pub fn build_media_status(s: &SessionState, request_id: Option<i64>) -> (m: CastMessage)
    ensures
        m@ == media_status(s@, request_id),
{
    let mut status: Vec<String> = Vec::new();
    status.push(player_object(s));
    assert(items_of(status@) =~= seq![player_json(s@)]);
    let mut members: Vec<(String, String)> = Vec::new();
    members.push(int_entry("requestId", answered(request_id)));
    members.push(raw_entry("status", list_text(&status)));
    members.push(text_entry("type", "MEDIA_STATUS"));
    assert(members_of(members@) =~= seq![
        ("requestId"@, signed_decimal(answered_id(request_id))),
        ("status"@, list(seq![player_json(s@)])),
        ("type"@, quoted("MEDIA_STATUS"@)),
    ]);
    let made: Result<CastMessage, crate::chromecast::castv2::CastV2Error> = CastMessage::new_json(
        s.transport_id.as_str(),
        s.sender_id.as_str(),
        namespace::MEDIA,
        object_text(&members),
    );
    made.unwrap()
}

/// The metadata of a value: the members of an object as texts, nothing where
/// it is no object.
pub open spec fn metadata_of(v: Tree) -> Map<Seq<char>, Seq<char>> {
    match v {
        Tree::Object(members, _) => members_shown(members),
        _ => Map::empty(),
    }
}

/// The members as texts.
pub open spec fn members_shown(members: Seq<(Seq<char>, Tree)>) -> Map<Seq<char>, Seq<char>>
    decreases members.len(),
{
    if members.len() == 0 {
        Map::empty()
    } else {
        members_shown(members.drop_last()).insert(members.last().0, members.last().1.shown())
    }
}

/// The metadata of a value.
pub fn extract_metadata(v: &Json) -> (out: TextMap<String>)
    ensures
        texts(out@) == metadata_of(tree_of(*v)),
{
    let mut out: TextMap<String> = TextMap::new();
    assert(texts(out@) =~= Map::<Seq<char>, Seq<char>>::empty());
    match v {
        Json::Object(members, _) => {
            let ghost all = tree_of(*v)->Object_0;
            let mut i: usize = 0;
            assert(all.take(0) =~= Seq::<(Seq<char>, Tree)>::empty());
            while i < members.len()
                invariant
                    i <= members@.len(),
                    *v matches Json::Object(m, _) && m == *members,
                    all == tree_of(*v)->Object_0,
                    all.len() == members@.len(),
                    texts(out@) == members_shown(all.take(i as int)),
                decreases members@.len() - i,
            {
                let ghost before = out@;
                let shown: String = members[i].1.shown();
                out.insert(members[i].0.clone(), shown);
                proof {
                    let next = all.take(i + 1);
                    assert(all[i as int] == (members@[i as int].0@, tree_of(members@[i as int].1)));
                    assert(next.drop_last() =~= all.take(i as int));
                    assert(texts(out@) =~= texts(before).insert(all[i as int].0, shown@));
                }
                i = i + 1;
            }
            assert(all.take(all.len() as int) =~= all);
        },
        _ => {},
    }
    out
}

/// The integers among the items.
pub open spec fn ints_among(items: Seq<Tree>) -> Seq<i64>
    decreases items.len(),
{
    if items.len() == 0 {
        Seq::empty()
    } else {
        match items.last().as_int() {
            Some(n) => ints_among(items.drop_last()).push(n),
            None => ints_among(items.drop_last()),
        }
    }
}

/// The integers of the list under the name; none where there is no list.
pub open spec fn ints_member(v: Tree, name: Seq<char>) -> Seq<i64> {
    match v.member(name) {
        Some(Tree::List(items, _)) => ints_among(items),
        _ => Seq::empty(),
    }
}

fn int_list_member(v: &Json, name: &str) -> (out: Vec<i64>)
    ensures
        out@ == ints_member(tree_of(*v), name@),
{
    let mut out: Vec<i64> = Vec::new();
    match v.member(name) {
        Some(found) => match found {
            Json::List(items, _) => {
                let ghost all = tree_of(*found)->List_0;
                let mut i: usize = 0;
                assert(all.take(0) =~= Seq::<Tree>::empty());
                while i < items.len()
                    invariant
                        i <= items@.len(),
                        *found matches Json::List(x, _) && x == *items,
                        all == tree_of(*found)->List_0,
                        all.len() == items@.len(),
                        out@ == ints_among(all.take(i as int)),
                    decreases items@.len() - i,
                {
                    assert(all.take(i + 1).drop_last() =~= all.take(i as int));
                    assert(all[i as int] == tree_of(items@[i as int]));
                    match &items[i] {
                        Json::Number(n) => match n.int {
                            Some(k) => {
                                out.push(k);
                            },
                            None => {},
                        },
                        _ => {},
                    }
                    i = i + 1;
                }
                assert(all.take(all.len() as int) =~= all);
            },
            _ => {},
        },
        None => {},
    }
    out
}

/// What is to be done for a message, in order.
pub enum Action {
    /// Send the message to the sender.
    Reply(CastMessage),
    /// Hand the command to the player.
    Command(MediaCommand),
}

/// What is to be done for a message, in words.
pub enum Done {
    Reply(Envelope),
    Command(Asked),
}

impl View for Action {
    type V = Done;

    open spec fn view(&self) -> Done {
        match *self {
            Action::Reply(m) => Done::Reply(m@),
            Action::Command(c) => Done::Command(c@),
        }
    }
}

/// The actions, in words.
pub open spec fn done(actions: Seq<Action>) -> Seq<Done> {
    actions.map_values(|a: Action| a@)
}

/// The session that a message meets: the one that runs, else one that begins
/// for the source of the message.
pub open spec fn opened(
    state: Option<Session>,
    source_id: Seq<char>,
    transport: u128,
    session: u128,
) -> Session {
    match state {
        Some(s) => s,
        None => fresh_session(source_id, transport, session),
    }
}

/// The status of the player, where a session runs.
pub open spec fn acknowledged(state: Option<Session>, request_id: Option<i64>) -> Seq<Done> {
    match state {
        Some(s) => seq![Done::Reply(media_status(s, request_id))],
        None => Seq::empty(),
    }
}

/// What a message about the connection does: a sender that connects opens the
/// session or takes it over. Nothing is answered.
pub open spec fn on_connection(
    state: Option<Session>,
    e: Envelope,
    ty: Seq<char>,
    transport: u128,
    session: u128,
) -> Option<Session> {
    if ty == "CONNECT"@ {
        Some(Session { sender_id: e.source_id, ..opened(state, e.source_id, transport, session) })
    } else {
        state
    }
}

/// What a heartbeat does: a ping is answered.
pub open spec fn on_heartbeat(e: Envelope, ty: Seq<char>) -> Seq<Done> {
    if ty == "PING"@ {
        seq![
            Done::Reply(
                json_envelope(
                    e.destination_id,
                    e.source_id,
                    namespace::HEARTBEAT@,
                    type_json("PONG"@),
                ),
            ),
        ]
    } else {
        Seq::empty()
    }
}

/// The application that a launch names; the default one where it names none.
pub open spec fn launched_app(v: Tree) -> Seq<char> {
    match v.text_member("appId"@) {
        Some(id) => id,
        None => DEFAULT_MEDIA_RECEIVER_APP_ID@,
    }
}

/// The commands of a change of the volume: its level, then whether it is
/// muted, as far as they are given.
pub open spec fn volume_commands(v: Tree) -> Seq<Done> {
    match v.member("volume"@) {
        None => Seq::empty(),
        Some(volume) => (match volume.float_member("level"@) {
            Some(level) => seq![Done::Command(Asked::SetSystemVolume(level))],
            None => Seq::empty(),
        }) + (match volume.flag_member("muted"@) {
            Some(muted) => seq![Done::Command(Asked::SetSystemMute(muted))],
            None => Seq::empty(),
        }),
    }
}

/// What a request to the platform does. A launch is dealt with here: it is
/// answered, and no command is handed on.
pub open spec fn on_platform(
    state: Option<Session>,
    e: Envelope,
    v: Tree,
    ty: Seq<char>,
    transport: u128,
    session: u128,
) -> (Option<Session>, Seq<Done>) {
    let request_id = v.int_member("requestId"@);
    let met = opened(state, e.source_id, transport, session);
    if ty == "GET_STATUS"@ {
        (
            Some(met),
            seq![Done::Reply(receiver_status(met, request_id, e.destination_id, e.source_id))],
        )
    } else if ty == "LAUNCH"@ {
        let after = Session { app_id: Some(launched_app(v)), ..met };
        (
            Some(after),
            seq![Done::Reply(receiver_status(after, request_id, e.destination_id, e.source_id))],
        )
    } else if ty == "STOP"@ {
        match state {
            Some(s) => {
                let after = Session { app_id: None, ..s };
                (
                    Some(after),
                    seq![
                        Done::Command(Asked::StopApp),
                        Done::Reply(
                            receiver_status(after, request_id, e.destination_id, e.source_id),
                        ),
                    ],
                )
            },
            None => (None, seq![Done::Command(Asked::StopApp)]),
        }
    } else if ty == "SET_VOLUME"@ {
        (state, volume_commands(v))
    } else {
        (state, Seq::empty())
    }
}

/// What a load names: the text under `contentId` of the media, or nothing.
pub open spec fn load_url(v: Tree) -> Seq<char> {
    match v.member("media"@) {
        Some(media) => match media.text_member("contentId"@) {
            Some(url) => url,
            None => Seq::empty(),
        },
        None => Seq::empty(),
    }
}

/// The kind of the media that a load gives.
pub open spec fn load_type(v: Tree) -> Option<Seq<char>> {
    match v.member("media"@) {
        Some(media) => media.text_member("contentType"@),
        None => None,
    }
}

/// The metadata of the media that a load gives.
pub open spec fn load_metadata(v: Tree) -> Map<Seq<char>, Seq<char>> {
    match v.member("media"@) {
        Some(media) => match media.member("metadata"@) {
            Some(m) => metadata_of(m),
            None => Map::empty(),
        },
        None => Map::empty(),
    }
}

/// Whether a load plays at once; it does where it says nothing of it.
pub open spec fn load_autoplay(v: Tree) -> bool {
    match v.flag_member("autoplay"@) {
        Some(b) => b,
        None => true,
    }
}

/// Where a load starts; at the beginning where it says nothing of it.
pub open spec fn load_time(v: Tree) -> Seq<char> {
    match v.float_member("currentTime"@) {
        Some(t) => t,
        None => "0.0"@,
    }
}

/// The session after a load.
pub open spec fn loaded(met: Session, v: Tree) -> Session {
    Session {
        last_content_id: Some(load_url(v)),
        last_content_type: load_type(v),
        player_state: if load_autoplay(v) {
            "BUFFERING"@
        } else {
            "PAUSED"@
        },
        current_time: load_time(v),
        ..met
    }
}

/// The command of a load.
pub open spec fn load_command(v: Tree) -> Asked {
    Asked::Load {
        url: load_url(v),
        content_type: load_type(v),
        start_time: load_time(v),
        autoplay: load_autoplay(v),
        metadata: load_metadata(v),
    }
}

/// What a load does.
pub open spec fn on_load(
    state: Option<Session>,
    e: Envelope,
    v: Tree,
    transport: u128,
    session: u128,
) -> (Option<Session>, Seq<Done>) {
    let after = loaded(opened(state, e.source_id, transport, session), v);
    (
        Some(after),
        seq![
            Done::Command(load_command(v)),
            Done::Reply(media_status(after, v.int_member("requestId"@))),
        ],
    )
}

/// What a request to the player does, apart from a load; no such request
/// changes the session.
pub open spec fn on_player(state: Option<Session>, v: Tree, ty: Seq<char>) -> Seq<Done> {
    let status = acknowledged(state, v.int_member("requestId"@));
    if ty == "PLAY"@ {
        seq![Done::Command(Asked::Play)] + status
    } else if ty == "PAUSE"@ {
        seq![Done::Command(Asked::Pause)] + status
    } else if ty == "STOP"@ {
        seq![Done::Command(Asked::Stop)] + status
    } else if ty == "SEEK"@ {
        match v.float_member("currentTime"@) {
            Some(at) => seq![Done::Command(Asked::Seek(at))] + status,
            None => status,
        }
    } else if ty == "GET_STATUS"@ {
        status
    } else if ty == "SET_PLAYBACK_RATE"@ {
        match v.float_member("playbackRate"@) {
            Some(rate) => seq![Done::Command(Asked::SetPlaybackRate(rate))],
            None => Seq::empty(),
        }
    } else if ty == "EDIT_TRACKS_INFO"@ {
        seq![Done::Command(Asked::EditTracks(ints_member(v, "activeTrackIds"@)))]
    } else {
        Seq::empty()
    }
}

/// The type of a message; empty where it has none.
pub open spec fn type_of(v: Tree) -> Seq<char> {
    match v.text_member("type"@) {
        Some(t) => t,
        None => Seq::empty(),
    }
}

/// Whether a message is refused: a load that names nothing to load.
pub open spec fn is_refused(e: Envelope, v: Tree) -> bool {
    e.namespace == namespace::MEDIA@ && type_of(v) == "LOAD"@ && load_url(v).len() == 0
}

/// What a message that is not refused does to the session, and what is to be
/// done for it. Messages of other namespaces do nothing.
pub open spec fn handled(
    state: Option<Session>,
    e: Envelope,
    v: Tree,
    transport: u128,
    session: u128,
) -> (Option<Session>, Seq<Done>) {
    let ty = type_of(v);
    if e.namespace == namespace::CONNECTION@ {
        (on_connection(state, e, ty, transport, session), Seq::empty())
    } else if e.namespace == namespace::HEARTBEAT@ {
        (state, on_heartbeat(e, ty))
    } else if e.namespace == namespace::RECEIVER@ {
        on_platform(state, e, v, ty, transport, session)
    } else if e.namespace == namespace::MEDIA@ {
        if ty == "LOAD"@ {
            on_load(state, e, v, transport, session)
        } else {
            (state, on_player(state, v, ty))
        }
    } else {
        (state, Seq::empty())
    }
}

fn push_reply(actions: &mut Vec<Action>, m: CastMessage)
    ensures
        done(final(actions)@) == done(old(actions)@).push(Done::Reply(m@)),
{
    let ghost before = actions@;
    actions.push(Action::Reply(m));
    assert(done(actions@) =~= done(before).push(Done::Reply(m@)));
}

fn push_command(actions: &mut Vec<Action>, c: MediaCommand)
    ensures
        done(final(actions)@) == done(old(actions)@).push(Done::Command(c@)),
{
    let ghost before = actions@;
    actions.push(Action::Command(c));
    assert(done(actions@) =~= done(before).push(Done::Command(c@)));
}

fn nothing() -> (actions: Vec<Action>)
    ensures
        done(actions@) == Seq::<Done>::empty(),
{
    let actions: Vec<Action> = Vec::new();
    assert(done(actions@) =~= Seq::<Done>::empty());
    actions
}

fn take_opened(
    state: &mut Option<SessionState>,
    source_id: &str,
    transport: u128,
    session: u128,
) -> (s: SessionState)
    ensures
        s@ == opened(session_of(*old(state)), source_id@, transport, session),
        *final(state) is None,
{
    match state.take() {
        Some(s) => s,
        None => SessionState::new(source_id.to_owned(), transport, session),
    }
}

fn push_status(actions: &mut Vec<Action>, state: &Option<SessionState>, request_id: Option<i64>)
    ensures
        done(final(actions)@) == done(old(actions)@) + acknowledged(
            session_of(*state),
            request_id,
        ),
{
    match state {
        Some(s) => {
            push_reply(actions, build_media_status(s, request_id));
        },
        None => {},
    }
    assert(done(actions@) =~= done(old(actions)@) + acknowledged(session_of(*state), request_id));
}

fn pong(msg: &CastMessage) -> (m: CastMessage)
    ensures
        m@ == json_envelope(
            msg.destination_id@,
            msg.source_id@,
            namespace::HEARTBEAT@,
            type_json("PONG"@),
        ),
{
    let made: Result<CastMessage, crate::chromecast::castv2::CastV2Error> = CastMessage::new_json(
        msg.destination_id.as_str(),
        msg.source_id.as_str(),
        namespace::HEARTBEAT,
        HeartbeatPayload::pong().to_json(),
    );
    made.unwrap()
}

fn status_for(s: &SessionState, request_id: Option<i64>, msg: &CastMessage) -> (m: CastMessage)
    ensures
        m@ == receiver_status(s@, request_id, msg.destination_id@, msg.source_id@),
{
    let made: Result<CastMessage, FerricastError> = build_receiver_status(
        s,
        request_id,
        msg.destination_id.as_str(),
        msg.source_id.as_str(),
    );
    made.unwrap()
}

fn handle_volume(value: &Json) -> (actions: Vec<Action>)
    ensures
        done(actions@) == volume_commands(tree_of(*value)),
{
    let mut actions: Vec<Action> = nothing();
    match value.member("volume") {
        None => {},
        Some(volume) => {
            match volume.float_member("level") {
                Some(level) => {
                    push_command(&mut actions, MediaCommand::SetSystemVolume(level));
                },
                None => {},
            }
            match volume.flag_member("muted") {
                Some(muted) => {
                    push_command(&mut actions, MediaCommand::SetSystemMute(muted));
                },
                None => {},
            }
        },
    }
    assert(done(actions@) =~= volume_commands(tree_of(*value)));
    actions
}

fn handle_platform(
    state: &mut Option<SessionState>,
    msg: &CastMessage,
    value: &Json,
    ty: &str,
    transport: u128,
    session: u128,
) -> (actions: Vec<Action>)
    ensures
        (session_of(*final(state)), done(actions@)) == on_platform(
            session_of(*old(state)),
            msg@,
            tree_of(*value),
            ty@,
            transport,
            session,
        ),
{
    let request_id: Option<i64> = value.int_member("requestId");
    let mut actions: Vec<Action> = nothing();
    let ghost expected = on_platform(
        session_of(*old(state)),
        msg@,
        tree_of(*value),
        ty@,
        transport,
        session,
    );
    if str_eq(ty, "GET_STATUS") {
        let s: SessionState = take_opened(state, msg.source_id.as_str(), transport, session);
        push_reply(&mut actions, status_for(&s, request_id, msg));
        *state = Some(s);
        assert(done(actions@) =~= expected.1);
    } else if str_eq(ty, "LAUNCH") {
        let app_id: String = match value.text_member("appId") {
            Some(id) => id,
            None => DEFAULT_MEDIA_RECEIVER_APP_ID.to_owned(),
        };
        let mut s: SessionState = take_opened(state, msg.source_id.as_str(), transport, session);
        s.app_id = Some(app_id);
        push_reply(&mut actions, status_for(&s, request_id, msg));
        *state = Some(s);
        assert(done(actions@) =~= expected.1);
    } else if str_eq(ty, "STOP") {
        push_command(&mut actions, MediaCommand::StopApp);
        match state.take() {
            Some(held) => {
                let mut s: SessionState = held;
                s.app_id = None;
                push_reply(&mut actions, status_for(&s, request_id, msg));
                *state = Some(s);
            },
            None => {},
        }
        assert(done(actions@) =~= expected.1);
    } else if str_eq(ty, "SET_VOLUME") {
        return handle_volume(value);
    }
    actions
}

/// The media of a load.
struct LoadRequest {
    url: String,
    content_type: Option<String>,
    metadata: TextMap<String>,
}

fn read_load(value: &Json) -> (load: LoadRequest)
    ensures
        load.url@ == load_url(tree_of(*value)),
        text_of_option(load.content_type) == load_type(tree_of(*value)),
        texts(load.metadata@) == load_metadata(tree_of(*value)),
{
    match value.member("media") {
        None => {
            let load = LoadRequest {
                url: String::new(),
                content_type: None,
                metadata: TextMap::new(),
            };
            assert(load.url@ =~= Seq::<char>::empty());
            assert(texts(load.metadata@) =~= Map::<Seq<char>, Seq<char>>::empty());
            load
        },
        Some(media) => {
            let url: String = match media.text_member("contentId") {
                Some(url) => url,
                None => String::new(),
            };
            let content_type: Option<String> = media.text_member("contentType");
            let metadata: TextMap<String> = match media.member("metadata") {
                Some(m) => extract_metadata(m),
                None => {
                    let none: TextMap<String> = TextMap::new();
                    assert(texts(none@) =~= Map::<Seq<char>, Seq<char>>::empty());
                    none
                },
            };
            assert(url@ =~= load_url(tree_of(*value)));
            LoadRequest { url, content_type, metadata }
        },
    }
}

fn handle_load(
    state: &mut Option<SessionState>,
    msg: &CastMessage,
    value: &Json,
    transport: u128,
    session: u128,
) -> (out: Result<Vec<Action>, FerricastError>)
    ensures
        match out {
            Ok(actions) => load_url(tree_of(*value)).len() != 0 && (
                session_of(*final(state)),
                done(actions@),
            ) == on_load(session_of(*old(state)), msg@, tree_of(*value), transport, session),
            Err(e) => load_url(tree_of(*value)).len() == 0 && *final(state) == *old(state)
                && e.is_receiver("LOAD without media.contentId"@),
        },
{
    let load: LoadRequest = read_load(value);
    if load.url.as_str().unicode_len() == 0 {
        return Err(FerricastError::Receiver("LOAD without media.contentId".to_owned()));
    }
    let request_id: Option<i64> = value.int_member("requestId");
    let autoplay: bool = match value.flag_member("autoplay") {
        Some(b) => b,
        None => true,
    };
    let time: String = match value.float_member("currentTime") {
        Some(t) => t,
        None => "0.0".to_owned(),
    };
    let mut s: SessionState = take_opened(state, msg.source_id.as_str(), transport, session);
    s.last_content_id = Some(load.url.clone());
    s.last_content_type = match &load.content_type {
        Some(t) => Some(t.clone()),
        None => None,
    };
    let word: &str = if autoplay {
        "BUFFERING"
    } else {
        "PAUSED"
    };
    s.player_state = word.to_owned();
    s.current_time = time.clone();
    let mut actions: Vec<Action> = nothing();
    push_command(
        &mut actions,
        MediaCommand::Load {
            url: load.url,
            content_type: load.content_type,
            start_time: time,
            autoplay,
            metadata: load.metadata,
        },
    );
    push_reply(&mut actions, build_media_status(&s, request_id));
    *state = Some(s);
    assert(done(actions@) =~= on_load(
        session_of(*old(state)),
        msg@,
        tree_of(*value),
        transport,
        session,
    ).1);
    Ok(actions)
}

fn handle_player(state: &Option<SessionState>, value: &Json, ty: &str) -> (actions: Vec<Action>)
    ensures
        done(actions@) == on_player(session_of(*state), tree_of(*value), ty@),
{
    let request_id: Option<i64> = value.int_member("requestId");
    let mut actions: Vec<Action> = nothing();
    let ghost expected = on_player(session_of(*state), tree_of(*value), ty@);
    if str_eq(ty, "PLAY") {
        push_command(&mut actions, MediaCommand::Play);
        push_status(&mut actions, state, request_id);
    } else if str_eq(ty, "PAUSE") {
        push_command(&mut actions, MediaCommand::Pause);
        push_status(&mut actions, state, request_id);
    } else if str_eq(ty, "STOP") {
        push_command(&mut actions, MediaCommand::Stop);
        push_status(&mut actions, state, request_id);
    } else if str_eq(ty, "SEEK") {
        match value.float_member("currentTime") {
            Some(position) => {
                push_command(&mut actions, MediaCommand::Seek { position });
            },
            None => {},
        }
        push_status(&mut actions, state, request_id);
    } else if str_eq(ty, "GET_STATUS") {
        push_status(&mut actions, state, request_id);
    } else if str_eq(ty, "SET_PLAYBACK_RATE") {
        match value.float_member("playbackRate") {
            Some(rate) => {
                push_command(&mut actions, MediaCommand::SetPlaybackRate(rate));
            },
            None => {},
        }
    } else if str_eq(ty, "EDIT_TRACKS_INFO") {
        let active_track_ids: Vec<i64> = int_list_member(value, "activeTrackIds");
        push_command(
            &mut actions,
            MediaCommand::EditTracks(TrackSelection { active_track_ids }),
        );
    }
    assert(done(actions@) =~= expected);
    actions
}

/// Whether a message was dealt with as it should be: it was refused with the
/// session unchanged, or had its effect on the session.
pub open spec fn dealt_with(
    before: Option<Session>,
    after: Option<Session>,
    e: Envelope,
    v: Tree,
    transport: u128,
    session: u128,
    out: Result<Vec<Action>, FerricastError>,
) -> bool {
    match out {
        Ok(actions) => !is_refused(e, v) && (after, done(actions@)) == handled(
            before,
            e,
            v,
            transport,
            session,
        ),
        Err(why) => is_refused(e, v) && after == before && why.is_receiver(
            "LOAD without media.contentId"@,
        ),
    }
}

/// Deals with a message whose payload is `value`. The identifiers are for a
/// session that begins with it.
pub fn handle(
    state: &mut Option<SessionState>,
    msg: &CastMessage,
    value: &Json,
    transport: u128,
    session: u128,
) -> (out: Result<Vec<Action>, FerricastError>)
    requires
        has_ids(session_of(*old(state))),
    ensures
        has_ids(session_of(*final(state))),
        dealt_with(
            session_of(*old(state)),
            session_of(*final(state)),
            msg@,
            tree_of(*value),
            transport,
            session,
            out,
        ),
{
    let ty: String = match value.text_member("type") {
        Some(t) => t,
        None => String::new(),
    };
    assert(ty@ =~= type_of(tree_of(*value)));
    proof {
        lemma_namespaces_differ();
        sessions_have_ids(session_of(*state), msg@, tree_of(*value), transport, session);
    }
    let ns: &str = msg.namespace.as_str();
    if str_eq(ns, namespace::CONNECTION) {
        if str_eq(ty.as_str(), "CONNECT") {
            let mut s: SessionState = take_opened(
                state,
                msg.source_id.as_str(),
                transport,
                session,
            );
            s.sender_id = msg.source_id.clone();
            *state = Some(s);
        }
        Ok(nothing())
    } else if str_eq(ns, namespace::HEARTBEAT) {
        let mut actions: Vec<Action> = nothing();
        if str_eq(ty.as_str(), "PING") {
            push_reply(&mut actions, pong(msg));
        }
        assert(done(actions@) =~= on_heartbeat(msg@, ty@));
        Ok(actions)
    } else if str_eq(ns, namespace::RECEIVER) {
        Ok(handle_platform(state, msg, value, ty.as_str(), transport, session))
    } else if str_eq(ns, namespace::MEDIA) {
        if str_eq(ty.as_str(), "LOAD") {
            handle_load(state, msg, value, transport, session)
        } else {
            Ok(handle_player(&*state, value, ty.as_str()))
        }
    } else {
        Ok(nothing())
    }
}

/// No two of the namespaces are the same.
pub proof fn lemma_namespaces_differ()
    ensures
        namespace::CONNECTION@ != namespace::MEDIA@,
        namespace::HEARTBEAT@ != namespace::MEDIA@,
        namespace::RECEIVER@ != namespace::MEDIA@,
        namespace::HEARTBEAT@ != namespace::CONNECTION@,
        namespace::RECEIVER@ != namespace::CONNECTION@,
        namespace::RECEIVER@ != namespace::HEARTBEAT@,
{
    reveal_strlit("urn:x-cast:com.google.cast.tp.connection");
    reveal_strlit("urn:x-cast:com.google.cast.tp.heartbeat");
    reveal_strlit("urn:x-cast:com.google.cast.receiver");
    reveal_strlit("urn:x-cast:com.google.cast.media");
    assert(namespace::CONNECTION@.len() == 40);
    assert(namespace::HEARTBEAT@.len() == 39);
    assert(namespace::RECEIVER@.len() == 35);
    assert(namespace::MEDIA@.len() == 32);
}

/// The JSON of a message; an empty object where it has none.
pub open spec fn payload_json(e: Envelope) -> Seq<char> {
    match e.payload_utf8 {
        Some(text) => text,
        None => "{}"@,
    }
}

/// A sender that has connected.
#[derive(Debug, PartialEq, Eq)]
pub struct RemoteSender {
    pub id: u128,
    pub addr: crate::device::IpAddress,
    pub name: Option<String>,
}

/// The control channel of a receiver: one sender at a time.
pub struct ChromecastReceiverControl {
    /// The port that senders connect to.
    pub port: u16,
    /// Whether a sender has connected.
    pub connected: bool,
    /// Whether the sender's messages are still read.
    pub reading: bool,
    /// What is remembered of the sender.
    pub state: Option<SessionState>,
}

impl ChromecastReceiverControl {
    /// What is remembered of the sender has its identifiers.
    pub open spec fn wf(self) -> bool {
        has_ids(session_of(self.state))
    }

    /// Nobody has connected.
    pub fn new(port: u16) -> (c: Self)
        ensures
            c.wf(),
            c == (ChromecastReceiverControl { port, connected: false, reading: false, state: None }),
    {
        ChromecastReceiverControl { port, connected: false, reading: false, state: None }
    }

    /// A sender has connected from the address. It gets a random identifier;
    /// its name is not known.
    pub fn accepted(&mut self, addr: crate::device::IpAddress) -> (sender: RemoteSender)
        requires
            old(self).wf(),
        ensures
            final(self).wf(),
            is_version_four(sender.id),
            sender.addr == addr,
            sender.name is None,
            final(self).connected,
            final(self).reading,
            final(self).port == old(self).port,
            final(self).state == old(self).state,
    {
        self.connected = true;
        self.reading = true;
        RemoteSender { id: random_uuid(), addr, name: None }
    }

    /// The next command, out of what came from the task that reads: nothing
    /// where that task has ended.
    pub fn next_command(&self, received: Option<Result<MediaCommand, FerricastError>>) -> (out:
        Result<MediaCommand, FerricastError>)
        ensures
            if !self.connected {
                out matches Err(e) && e.is_receiver("next_command before accept"@)
            } else {
                match received {
                    Some(r) => out == r,
                    None => out matches Err(e) && e.is_receiver("control reader closed"@),
                }
            },
    {
        if !self.connected {
            return Err(FerricastError::Receiver("next_command before accept".to_owned()));
        }
        match received {
            Some(r) => r,
            None => Err(FerricastError::Receiver("control reader closed".to_owned())),
        }
    }

    /// Takes a message of the sender: what is to be done for it, in order. A
    /// payload that is not JSON is an error.
    pub fn dispatch(&mut self, msg: &CastMessage) -> (out: Result<Vec<Action>, FerricastError>)
        requires
            old(self).wf(),
        ensures
            final(self).wf(),
            final(self).port == old(self).port,
            final(self).connected == old(self).connected,
            final(self).reading == old(self).reading,
            match json_parsed(payload_json(msg@)) {
                Ok(v) => exists|transport: u128, session: u128|
                    is_version_four(transport) && is_version_four(session)
                        && #[trigger] dealt_with(
                        session_of(old(self).state),
                        session_of(final(self).state),
                        msg@,
                        v,
                        transport,
                        session,
                        out,
                    ),
                Err(m) => final(self).state == old(self).state && (out matches Err(e)
                    && e.is_receiver("payload parse: "@ + m)),
            },
    {
        let payload: &str = match &msg.payload_utf8 {
            Some(text) => text.as_str(),
            None => "{}",
        };
        match parse(payload) {
            Ok(value) => {
                let transport: u128 = random_uuid();
                let session: u128 = random_uuid();
                handle(&mut self.state, msg, &value, transport, session)
            },
            Err(m) => Err(FerricastError::Receiver(join2("payload parse: ", m.as_str()))),
        }
    }

    /// The player's state has changed: the status to send to the sender, where
    /// one is connected and a session runs.
    pub fn report_state(&mut self, playback: &PlaybackState) -> (m: Option<CastMessage>)
        requires
            old(self).wf(),
        ensures
            final(self).wf(),
            final(self).port == old(self).port,
            final(self).connected == old(self).connected,
            final(self).reading == old(self).reading,
            if old(self).connected && old(self).state is Some {
                let after = Session {
                    player_state: state_word(*playback),
                    ..old(self).state->0@
                };
                &&& session_of(final(self).state) == Some(after)
                &&& m matches Some(x) && x@ == media_status(after, None)
            } else {
                m is None && final(self).state == old(self).state
            },
    {
        if !self.connected {
            return None;
        }
        match self.state.take() {
            Some(held) => {
                let mut s: SessionState = held;
                let word: &str = match playback {
                    PlaybackState::Idle => "IDLE",
                    PlaybackState::Buffering => "BUFFERING",
                    PlaybackState::Playing => "PLAYING",
                    PlaybackState::Paused => "PAUSED",
                    PlaybackState::Ended => "IDLE",
                    PlaybackState::Error(_) => "IDLE",
                };
                s.player_state = word.to_owned();
                let m: CastMessage = build_media_status(&s, None);
                self.state = Some(s);
                Some(m)
            },
            None => None,
        }
    }

    /// The sender's messages are not read any more.
    pub fn reader_ended(&mut self)
        requires
            old(self).wf(),
        ensures
            final(self).wf(),
            *final(self) == (ChromecastReceiverControl { reading: false, ..*old(self) }),
    {
        self.reading = false;
    }

    /// The channel is closed, and everything about the sender forgotten.
    pub fn close(&mut self)
        ensures
            final(self).wf(),
            *final(self) == (ChromecastReceiverControl {
                port: old(self).port,
                connected: false,
                reading: false,
                state: None,
            }),
    {
        self.connected = false;
        self.reading = false;
        self.state = None;
    }

    /// Whether the sender's messages are read.
    pub fn is_alive(&self) -> (alive: bool)
        ensures
            alive == self.reading,
    {
        self.reading
    }
}

/// Every ping is answered at once, whatever the session, and nothing else is
/// done for it.
pub proof fn pings_are_answered(
    state: Option<Session>,
    e: Envelope,
    v: Tree,
    transport: u128,
    session: u128,
)
    requires
        e.namespace == namespace::HEARTBEAT@,
        type_of(v) == "PING"@,
    ensures
        !is_refused(e, v),
        handled(state, e, v, transport, session) == (
            state,
            seq![
                Done::Reply(
                    json_envelope(
                        e.destination_id,
                        e.source_id,
                        namespace::HEARTBEAT@,
                        type_json("PONG"@),
                    ),
                ),
            ],
        ),
{
    lemma_namespaces_differ();
}

/// Messages about the connection are not answered, and give no command.
pub proof fn connections_are_silent(
    state: Option<Session>,
    e: Envelope,
    v: Tree,
    transport: u128,
    session: u128,
)
    requires
        e.namespace == namespace::CONNECTION@,
    ensures
        !is_refused(e, v),
        handled(state, e, v, transport, session).1 == Seq::<Done>::empty(),
{
    lemma_namespaces_differ();
}

/// A session that runs keeps running under the same identifiers, whatever is
/// received; only a connection changes whom it serves.
pub proof fn session_keeps_identity(
    s: Session,
    e: Envelope,
    v: Tree,
    transport: u128,
    session: u128,
)
    ensures
        handled(Some(s), e, v, transport, session).0 matches Some(after) && {
            &&& after.transport_id == s.transport_id
            &&& after.session_id == s.session_id
            &&& after.media_session_id == s.media_session_id
            &&& e.namespace != namespace::CONNECTION@ ==> after.sender_id == s.sender_id
        },
{
}

/// Whatever is received, a session keeps an identifier of its transport and
/// one of its own that are not empty, so an application that runs has both.
pub proof fn sessions_have_ids(
    state: Option<Session>,
    e: Envelope,
    v: Tree,
    transport: u128,
    session: u128,
)
    requires
        has_ids(state),
    ensures
        has_ids(handled(state, e, v, transport, session).0),
{
    uuid_spelling_len(transport);
    uuid_spelling_len(session);
}

/// A launch is answered by the status alone, and no command is handed on. It
/// is seen by the next request for the status, which lists the launched
/// application and no other; after a stop none is listed.
pub proof fn launch_shows_until_stop(
    state: Option<Session>,
    launch: (Envelope, Tree),
    query: (Envelope, Tree),
    stop: (Envelope, Tree),
    transport: u128,
    session: u128,
)
    requires
        launch.0.namespace == namespace::RECEIVER@,
        type_of(launch.1) == "LAUNCH"@,
        query.0.namespace == namespace::RECEIVER@,
        type_of(query.1) == "GET_STATUS"@,
        stop.0.namespace == namespace::RECEIVER@,
        type_of(stop.1) == "STOP"@,
    ensures
        ({
            let met = opened(state, launch.0.source_id, transport, session);
            let launched = handled(state, launch.0, launch.1, transport, session).0;
            let stopped = handled(launched, stop.0, stop.1, transport, session).0;
            let shown = |at: Session|
                seq![
                    Done::Reply(
                        receiver_status(
                            at,
                            query.1.int_member("requestId"@),
                            query.0.destination_id,
                            query.0.source_id,
                        ),
                    ),
                ];
            let running = Session { app_id: Some(launched_app(launch.1)), ..met };
            &&& handled(state, launch.0, launch.1, transport, session).1 == seq![
                Done::Reply(
                    receiver_status(
                        running,
                        launch.1.int_member("requestId"@),
                        launch.0.destination_id,
                        launch.0.source_id,
                    ),
                ),
            ]
            &&& handled(launched, query.0, query.1, transport, session).1 == shown(running)
            &&& applications_json(running) == list(
                seq![application_json(running, launched_app(launch.1))],
            )
            &&& handled(stopped, query.0, query.1, transport, session).1 == shown(
                Session { app_id: None, ..met },
            )
            &&& applications_json(Session { app_id: None, ..met }) == list(Seq::empty())
        }),
{
    lemma_namespaces_differ();
    lemma_platform_words();
}

proof fn lemma_platform_words()
    ensures
        "LAUNCH"@ != "GET_STATUS"@,
        "STOP"@ != "GET_STATUS"@,
        "STOP"@ != "LAUNCH"@,
        "LOAD"@ != "GET_STATUS"@,
        "PLAY"@ != "GET_STATUS"@,
        "PAUSE"@ != "GET_STATUS"@,
        "SEEK"@ != "GET_STATUS"@,
{
    reveal_strlit("LAUNCH");
    reveal_strlit("STOP");
    reveal_strlit("GET_STATUS");
    reveal_strlit("LOAD");
    reveal_strlit("PLAY");
    reveal_strlit("PAUSE");
    reveal_strlit("SEEK");
    assert("GET_STATUS"@.len() == 10);
    assert("LAUNCH"@.len() == 6);
    assert("STOP"@.len() == 4);
    assert("LOAD"@.len() == 4);
    assert("PLAY"@.len() == 4);
    assert("PAUSE"@.len() == 5);
    assert("SEEK"@.len() == 4);
}

/// What was loaded is what the status of the player gives back until the next
/// load: its address, and whether it was to play at once.
pub proof fn load_shows_in_status(
    state: Option<Session>,
    load: (Envelope, Tree),
    query: (Envelope, Tree),
    transport: u128,
    session: u128,
)
    requires
        load.0.namespace == namespace::MEDIA@,
        type_of(load.1) == "LOAD"@,
        !is_refused(load.0, load.1),
        query.0.namespace == namespace::MEDIA@,
        type_of(query.1) == "GET_STATUS"@,
    ensures
        ({
            let after = handled(state, load.0, load.1, transport, session).0;
            let status = handled(after, query.0, query.1, transport, session);
            &&& status.0 == after
            &&& after matches Some(s) && {
                &&& s.last_content_id == Some(load_url(load.1))
                &&& s.player_state == if load_autoplay(load.1) {
                    "BUFFERING"@
                } else {
                    "PAUSED"@
                }
                &&& status.1 == seq![
                    Done::Reply(media_status(s, query.1.int_member("requestId"@))),
                ]
            }
        }),
{
    lemma_namespaces_differ();
    lemma_platform_words();
}

/// The words for the states of a player are the protocol's own: senders tell
/// four of them apart. A player that has ended or failed is idle, and one that
/// is paused has the word of a load that does not play at once.
pub proof fn states_have_the_protocols_words(v: Tree, met: Session, why: String)
    ensures
        state_word(PlaybackState::Idle) == "IDLE"@,
        state_word(PlaybackState::Buffering) == "BUFFERING"@,
        state_word(PlaybackState::Playing) == "PLAYING"@,
        state_word(PlaybackState::Paused) == "PAUSED"@,
        state_word(PlaybackState::Ended) == "IDLE"@,
        state_word(PlaybackState::Error(why)) == "IDLE"@,
        loaded(met, v).player_state == state_word(
            if v.flag_member("autoplay"@) == Some(false) {
                PlaybackState::Paused
            } else {
                PlaybackState::Buffering
            },
        ),
        forall|a: PlaybackState, b: PlaybackState|
            #![trigger state_word(a), state_word(b)]
            state_word(a) == state_word(b) ==> a == b || (state_word(a) == "IDLE"@),
{
    reveal_strlit("IDLE");
    reveal_strlit("BUFFERING");
    reveal_strlit("PLAYING");
    reveal_strlit("PAUSED");
    assert("IDLE"@.len() == 4);
    assert("BUFFERING"@.len() == 9);
    assert("PLAYING"@.len() == 7);
    assert("PAUSED"@.len() == 6);
}

/// Whether an envelope carries a JSON text from one end to the other on the
/// namespace.
pub open spec fn carries(
    e: Envelope,
    from: Seq<char>,
    to: Seq<char>,
    ns: Seq<char>,
    text: Seq<char>,
) -> bool {
    &&& e.source_id == from
    &&& e.destination_id == to
    &&& e.namespace == ns
    &&& e.payload_utf8 == Some(text)
    &&& e.payload_binary is None
    &&& e.payload_type == Some(0i32)
    &&& e.protocol_version == Some(0i32)
}

/// The number of the request that an answer names is that of the request, and
/// zero where it has none.
pub open spec fn answers(text: Seq<char>, request_id: Option<i64>) -> bool {
    has_member(
        text,
        "requestId"@,
        signed_decimal(
            match request_id {
                Some(n) => n as int,
                None => 0,
            },
        ),
    )
}

/// What a sender reads out of the status of the platform: the answer to its
/// request, a full volume, and the application that runs, if one does, with the
/// identifiers of its session and of its transport.
pub proof fn platform_status_is_read_back(
    s: Session,
    request_id: Option<i64>,
    from: Seq<char>,
    to: Seq<char>,
)
    ensures
        ({
            let text = receiver_status_json(s, request_id);
            let apps = apps_of(s);
            &&& carries(
                receiver_status(s, request_id, from, to),
                from,
                to,
                "urn:x-cast:com.google.cast.receiver"@,
                text,
            )
            &&& has_member(text, "type"@, quoted("RECEIVER_STATUS"@))
            &&& answers(text, request_id)
            &&& has_member(text, "status"@, platform_json(s))
            &&& has_member(platform_json(s), "applications"@, list(apps))
            &&& has_member(platform_json(s), "volume"@, volume_json())
            &&& has_member(volume_json(), "level"@, "1.0"@)
            &&& has_member(volume_json(), "muted"@, "false"@)
            &&& apps.len() == if s.app_id is Some {
                1nat
            } else {
                0
            }
            &&& s.app_id matches Some(app) ==> {
                &&& has_member(apps[0], "appId"@, quoted(app))
                &&& has_member(apps[0], "sessionId"@, quoted(s.session_id))
                &&& has_member(apps[0], "transportId"@, quoted(s.transport_id))
                &&& has_member(apps[0], "displayName"@, quoted("Ferricast"@))
                &&& has_member(apps[0], "statusText"@, quoted("Ready"@))
                &&& has_member(apps[0], "namespaces"@, list(spoken()))
            }
        }),
{
    lemma_platform_members(s, request_id);
    if let Some(app) = s.app_id {
        lemma_application_members(s, app);
    }
}

/// The applications that are listed.
pub open spec fn apps_of(s: Session) -> Seq<Seq<char>> {
    match s.app_id {
        Some(id) => seq![application_json(s, id)],
        None => Seq::empty(),
    }
}

/// The namespaces that a launched application speaks: that of the player, that
/// of connections and that of heartbeats.
pub open spec fn spoken() -> Seq<Seq<char>> {
    seq![
        namespace_json("urn:x-cast:com.google.cast.media"@),
        namespace_json("urn:x-cast:com.google.cast.tp.connection"@),
        namespace_json("urn:x-cast:com.google.cast.tp.heartbeat"@),
    ]
}

proof fn lemma_platform_members(s: Session, request_id: Option<i64>)
    ensures
        ({
            let text = receiver_status_json(s, request_id);
            &&& has_member(text, "type"@, quoted("RECEIVER_STATUS"@))
            &&& answers(text, request_id)
            &&& has_member(text, "status"@, platform_json(s))
            &&& has_member(platform_json(s), "applications"@, list(apps_of(s)))
            &&& has_member(platform_json(s), "volume"@, volume_json())
            &&& has_member(volume_json(), "level"@, "1.0"@)
            &&& has_member(volume_json(), "muted"@, "false"@)
        }),
{
    let all = seq![
        ("requestId"@, signed_decimal(answered_id(request_id))),
        ("status"@, platform_json(s)),
        ("type"@, quoted("RECEIVER_STATUS"@)),
    ];
    lemma_has_member(all, 0);
    lemma_has_member(all, 1);
    lemma_has_member(all, 2);
    let platform = seq![("applications"@, applications_json(s)), ("volume"@, volume_json())];
    lemma_has_member(platform, 0);
    lemma_has_member(platform, 1);
    let volume = seq![("level"@, "1.0"@), ("muted"@, "false"@)];
    lemma_has_member(volume, 0);
    lemma_has_member(volume, 1);
    assert(applications_json(s) == list(apps_of(s)));
}

proof fn lemma_application_members(s: Session, app: Seq<char>)
    ensures
        ({
            let text = application_json(s, app);
            &&& has_member(text, "appId"@, quoted(app))
            &&& has_member(text, "sessionId"@, quoted(s.session_id))
            &&& has_member(text, "transportId"@, quoted(s.transport_id))
            &&& has_member(text, "displayName"@, quoted("Ferricast"@))
            &&& has_member(text, "statusText"@, quoted("Ready"@))
            &&& has_member(text, "namespaces"@, list(spoken()))
        }),
{
    let all = seq![
        ("appId"@, quoted(app)),
        ("displayName"@, quoted("Ferricast"@)),
        ("namespaces"@, list(spoken())),
        ("sessionId"@, quoted(s.session_id)),
        ("statusText"@, quoted("Ready"@)),
        ("transportId"@, quoted(s.transport_id)),
    ];
    assert(application_json(s, app) == object(all));
    lemma_has_member(all, 0);
    lemma_has_member(all, 1);
    lemma_has_member(all, 2);
    lemma_has_member(all, 3);
    lemma_has_member(all, 4);
    lemma_has_member(all, 5);
}

/// What a sender reads out of the status of the player: the answer to its
/// request, the state, the position and the session of the player, and what is
/// loaded, if anything is, under its own address and kind.
pub proof fn player_status_is_read_back(s: Session, request_id: Option<i64>)
    ensures
        ({
            let text = media_status_json(s, request_id);
            let player = player_json(s);
            &&& carries(
                media_status(s, request_id),
                s.transport_id,
                s.sender_id,
                "urn:x-cast:com.google.cast.media"@,
                text,
            )
            &&& has_member(text, "type"@, quoted("MEDIA_STATUS"@))
            &&& answers(text, request_id)
            &&& has_member(text, "status"@, list(seq![player]))
            &&& has_member(player, "playerState"@, quoted(s.player_state))
            &&& has_member(player, "currentTime"@, s.current_time)
            &&& has_member(player, "mediaSessionId"@, signed_decimal(s.media_session_id as int))
            &&& has_member(player, "supportedMediaCommands"@, signed_decimal(15))
            &&& has_member(player, "media"@, loaded_json(s))
            &&& s.last_content_id is None ==> loaded_json(s) == "null"@
            &&& s.last_content_id matches Some(url) ==> {
                &&& has_member(loaded_json(s), "contentId"@, quoted(url))
                &&& has_member(loaded_json(s), "streamType"@, quoted("BUFFERED"@))
                &&& has_member(
                    loaded_json(s),
                    "contentType"@,
                    quoted(
                        match s.last_content_type {
                            Some(t) => t,
                            None => "application/vnd.apple.mpegurl"@,
                        },
                    ),
                )
            }
        }),
{
    lemma_status_members(s, request_id);
    if let Some(url) = s.last_content_id {
        let media = seq![
            ("contentId"@, quoted(url)),
            ("contentType"@, quoted(loaded_type(s))),
            ("streamType"@, quoted("BUFFERED"@)),
        ];
        assert(loaded_json(s) == object(media));
        lemma_has_member(media, 0);
        lemma_has_member(media, 1);
        lemma_has_member(media, 2);
    }
}

proof fn lemma_status_members(s: Session, request_id: Option<i64>)
    ensures
        ({
            let text = media_status_json(s, request_id);
            let player = player_json(s);
            &&& has_member(text, "type"@, quoted("MEDIA_STATUS"@))
            &&& answers(text, request_id)
            &&& has_member(text, "status"@, list(seq![player]))
            &&& has_member(player, "playerState"@, quoted(s.player_state))
            &&& has_member(player, "currentTime"@, s.current_time)
            &&& has_member(player, "mediaSessionId"@, signed_decimal(s.media_session_id as int))
            &&& has_member(player, "supportedMediaCommands"@, signed_decimal(15))
            &&& has_member(player, "media"@, loaded_json(s))
        }),
{
    let all = seq![
        ("requestId"@, signed_decimal(answered_id(request_id))),
        ("status"@, list(seq![player_json(s)])),
        ("type"@, quoted("MEDIA_STATUS"@)),
    ];
    lemma_has_member(all, 0);
    lemma_has_member(all, 1);
    lemma_has_member(all, 2);
    let player = seq![
        ("currentTime"@, s.current_time),
        ("media"@, loaded_json(s)),
        ("mediaSessionId"@, signed_decimal(s.media_session_id as int)),
        ("playerState"@, quoted(s.player_state)),
        ("supportedMediaCommands"@, signed_decimal(15)),
    ];
    lemma_has_member(player, 0);
    lemma_has_member(player, 1);
    lemma_has_member(player, 2);
    lemma_has_member(player, 3);
    lemma_has_member(player, 4);
}

/// The commands among the things to be done.
pub open spec fn commands_of(done: Seq<Done>) -> Seq<Asked>
    decreases done.len(),
{
    if done.len() == 0 {
        Seq::empty()
    } else {
        match done.last() {
            Done::Command(c) => commands_of(done.drop_last()).push(c),
            Done::Reply(_) => commands_of(done.drop_last()),
        }
    }
}

/// The replies among the things to be done.
pub open spec fn replies_of(done: Seq<Done>) -> Seq<Envelope>
    decreases done.len(),
{
    if done.len() == 0 {
        Seq::empty()
    } else {
        match done.last() {
            Done::Reply(e) => replies_of(done.drop_last()).push(e),
            Done::Command(_) => replies_of(done.drop_last()),
        }
    }
}

proof fn lemma_one_and_reply(c: Asked, r: Envelope)
    ensures
        commands_of(seq![Done::Command(c), Done::Reply(r)]) == seq![c],
        replies_of(seq![Done::Command(c), Done::Reply(r)]) == seq![r],
        commands_of(seq![Done::Command(c)]) == seq![c],
        replies_of(seq![Done::Command(c)]) == Seq::<Envelope>::empty(),
        commands_of(seq![Done::Reply(r)]) == Seq::<Asked>::empty(),
        replies_of(seq![Done::Reply(r)]) == seq![r],
{
    let both = seq![Done::Command(c), Done::Reply(r)];
    assert(both.drop_last() =~= seq![Done::Command(c)]);
    assert(seq![Done::Command(c)].drop_last() =~= Seq::<Done>::empty());
    assert(seq![Done::Reply(r)].drop_last() =~= Seq::<Done>::empty());
    reveal_with_fuel(commands_of, 3);
    reveal_with_fuel(replies_of, 3);
    assert(commands_of(seq![Done::Command(c)]) =~= seq![c]);
    assert(commands_of(both) =~= seq![c]);
    assert(replies_of(seq![Done::Reply(r)]) =~= seq![r]);
    assert(replies_of(both) =~= seq![r]);
}

/// What each request to the player asks of it: to play, to pause, to stop and to
/// go to the position that is named, and in a running session the status is the
/// one reply to each.
pub proof fn players_are_asked_what_senders_ask(
    s: Session,
    e: Envelope,
    v: Tree,
    transport: u128,
    session: u128,
)
    requires
        e.namespace == "urn:x-cast:com.google.cast.media"@,
    ensures
        ({
            let out = handled(Some(s), e, v, transport, session);
            let ty = type_of(v);
            let status = seq![media_status(s, v.int_member("requestId"@))];
            &&& ty != "LOAD"@ ==> out.0 == Some(s)
            &&& ty == "PLAY"@ ==> commands_of(out.1) == seq![Asked::Play] && replies_of(out.1)
                == status
            &&& ty == "PAUSE"@ ==> commands_of(out.1) == seq![Asked::Pause] && replies_of(out.1)
                == status
            &&& ty == "STOP"@ ==> commands_of(out.1) == seq![Asked::Stop] && replies_of(out.1)
                == status
            &&& ty == "SEEK"@ ==> replies_of(out.1) == status && commands_of(out.1)
                == match v.float_member("currentTime"@) {
                Some(at) => seq![Asked::Seek(at)],
                None => Seq::empty(),
            }
            &&& ty == "GET_STATUS"@ ==> commands_of(out.1).len() == 0 && replies_of(out.1) == status
        }),
{
    lemma_namespaces_differ();
    lemma_player_words();
    let status = media_status(s, v.int_member("requestId"@));
    let at = match v.float_member("currentTime"@) {
        Some(at) => at,
        None => Seq::empty(),
    };
    lemma_one_and_reply(Asked::Play, status);
    lemma_one_and_reply(Asked::Pause, status);
    lemma_one_and_reply(Asked::Stop, status);
    lemma_one_and_reply(Asked::Seek(at), status);
    assert(seq![Done::Command(Asked::Play)] + seq![Done::Reply(status)] =~= seq![
        Done::Command(Asked::Play),
        Done::Reply(status),
    ]);
    assert(seq![Done::Command(Asked::Pause)] + seq![Done::Reply(status)] =~= seq![
        Done::Command(Asked::Pause),
        Done::Reply(status),
    ]);
    assert(seq![Done::Command(Asked::Stop)] + seq![Done::Reply(status)] =~= seq![
        Done::Command(Asked::Stop),
        Done::Reply(status),
    ]);
    assert(seq![Done::Command(Asked::Seek(at))] + seq![Done::Reply(status)] =~= seq![
        Done::Command(Asked::Seek(at)),
        Done::Reply(status),
    ]);
}

proof fn lemma_player_words()
    ensures
        "PLAY"@ != "PAUSE"@ && "PLAY"@ != "STOP"@ && "PLAY"@ != "SEEK"@ && "PLAY"@ != "GET_STATUS"@,
        "PLAY"@ != "LOAD"@ && "PAUSE"@ != "LOAD"@ && "STOP"@ != "LOAD"@ && "SEEK"@ != "LOAD"@,
        "PAUSE"@ != "STOP"@ && "PAUSE"@ != "SEEK"@ && "PAUSE"@ != "GET_STATUS"@,
        "STOP"@ != "SEEK"@ && "STOP"@ != "GET_STATUS"@ && "SEEK"@ != "GET_STATUS"@,
        "GET_STATUS"@ != "LOAD"@,
        "SET_PLAYBACK_RATE"@ != "LOAD"@ && "SET_PLAYBACK_RATE"@ != "PLAY"@
            && "SET_PLAYBACK_RATE"@ != "PAUSE"@ && "SET_PLAYBACK_RATE"@ != "STOP"@
            && "SET_PLAYBACK_RATE"@ != "SEEK"@ && "SET_PLAYBACK_RATE"@ != "GET_STATUS"@,
        "EDIT_TRACKS_INFO"@ != "LOAD"@ && "EDIT_TRACKS_INFO"@ != "PLAY"@
            && "EDIT_TRACKS_INFO"@ != "PAUSE"@ && "EDIT_TRACKS_INFO"@ != "STOP"@
            && "EDIT_TRACKS_INFO"@ != "SEEK"@ && "EDIT_TRACKS_INFO"@ != "GET_STATUS"@
            && "EDIT_TRACKS_INFO"@ != "SET_PLAYBACK_RATE"@,
        "SET_VOLUME"@ != "GET_STATUS"@ && "SET_VOLUME"@ != "LAUNCH"@ && "SET_VOLUME"@ != "STOP"@,
{
    reveal_strlit("PLAY");
    reveal_strlit("PAUSE");
    reveal_strlit("STOP");
    reveal_strlit("SEEK");
    reveal_strlit("LOAD");
    reveal_strlit("LAUNCH");
    reveal_strlit("GET_STATUS");
    reveal_strlit("SET_VOLUME");
    reveal_strlit("SET_PLAYBACK_RATE");
    reveal_strlit("EDIT_TRACKS_INFO");
    assert("PLAY"@.len() == 4 && "STOP"@.len() == 4 && "SEEK"@.len() == 4 && "LOAD"@.len() == 4);
    assert("PAUSE"@.len() == 5 && "LAUNCH"@.len() == 6);
    assert("GET_STATUS"@.len() == 10 && "SET_VOLUME"@.len() == 10);
    assert("SET_PLAYBACK_RATE"@.len() == 17 && "EDIT_TRACKS_INFO"@.len() == 16);
    assert("PLAY"@[0] == 'P' && "STOP"@[1] == 'T' && "SEEK"@[1] == 'E' && "LOAD"@[0] == 'L');
    assert("STOP"@[0] == 'S' && "SEEK"@[0] == 'S');
    assert("GET_STATUS"@[0] == 'G' && "SET_VOLUME"@[0] == 'S');
}

/// What a load asks of the player and what the session keeps of it: what the
/// sender named as address, kind, position and whether to play at once, each as
/// it was named. The reply is the status of the session as it then is.
pub proof fn loads_ask_for_what_was_named(
    state: Option<Session>,
    e: Envelope,
    v: Tree,
    media: Tree,
    url: Seq<char>,
    transport: u128,
    session: u128,
)
    requires
        e.namespace == "urn:x-cast:com.google.cast.media"@,
        type_of(v) == "LOAD"@,
        v.member("media"@) == Some(media),
        media.text_member("contentId"@) == Some(url),
        url.len() > 0,
    ensures
        ({
            let out = handled(state, e, v, transport, session);
            &&& !is_refused(e, v)
            &&& out.0 matches Some(s) && {
                &&& s.last_content_id == Some(url)
                &&& s.last_content_type == media.text_member("contentType"@)
                &&& s.current_time == match v.float_member("currentTime"@) {
                    Some(at) => at,
                    None => "0.0"@,
                }
                &&& replies_of(out.1) == seq![media_status(s, v.int_member("requestId"@))]
                &&& state matches Some(was) ==> s.sender_id == was.sender_id && s.app_id
                    == was.app_id
                &&& state is None ==> s.sender_id == e.source_id && s.app_id is None
            }
            &&& commands_of(out.1).len() == 1
            &&& commands_of(out.1)[0] matches Asked::Load {
                url: asked,
                content_type,
                start_time,
                autoplay,
                metadata,
            } && {
                &&& asked == url
                &&& content_type == media.text_member("contentType"@)
                &&& start_time == match v.float_member("currentTime"@) {
                    Some(at) => at,
                    None => "0.0"@,
                }
                &&& autoplay == (v.flag_member("autoplay"@) != Some(false))
                &&& media.member("metadata"@) is None ==> metadata == Map::<
                    Seq<char>,
                    Seq<char>,
                >::empty()
            }
        }),
{
    lemma_namespaces_differ();
    let out = handled(state, e, v, transport, session);
    let after = loaded(opened(state, e.source_id, transport, session), v);
    lemma_one_and_reply(load_command(v), media_status(after, v.int_member("requestId"@)));
}

/// The metadata that a load hands on holds every member of what the sender
/// gave, each under its name as text, and nothing else.
pub proof fn metadata_is_handed_on(members: Seq<(Seq<char>, Tree)>, text: Seq<char>, i: int)
    requires
        0 <= i < members.len(),
        forall|j: int, k: int|
            0 <= j < k < members.len() ==> (#[trigger] members[j]).0 != (#[trigger] members[k]).0,
    ensures
        ({
            let m = metadata_of(Tree::Object(members, text));
            &&& m.dom().contains(members[i].0)
            &&& m[members[i].0] == members[i].1.shown()
            &&& forall|name: Seq<char>| #[trigger]
                m.dom().contains(name) ==> exists|j: int|
                    0 <= j < members.len() && (#[trigger] members[j]).0 == name
        }),
        members[i].1 matches Tree::Text(t) ==> metadata_of(
            Tree::Object(members, text),
        )[members[i].0] == t,
{
    lemma_shown(members, members.len() as int, i);
    assert(members.take(members.len() as int) =~= members);
}

proof fn lemma_shown(members: Seq<(Seq<char>, Tree)>, n: int, i: int)
    requires
        0 <= i < n <= members.len(),
        forall|j: int, k: int|
            0 <= j < k < members.len() ==> (#[trigger] members[j]).0 != (#[trigger] members[k]).0,
    ensures
        ({
            let m = members_shown(members.take(n));
            &&& m.dom().contains(members[i].0)
            &&& m[members[i].0] == members[i].1.shown()
            &&& forall|name: Seq<char>| #[trigger]
                m.dom().contains(name) ==> exists|j: int|
                    0 <= j < n && (#[trigger] members[j]).0 == name
        }),
    decreases n,
{
    let now = members.take(n);
    assert(now.drop_last() =~= members.take(n - 1));
    assert(now.last() == members[n - 1]);
    if n > 1 {
        lemma_shown(members, n - 1, if i < n - 1 {
            i
        } else {
            0
        });
    } else {
        assert(members.take(0) =~= Seq::<(Seq<char>, Tree)>::empty());
    }
    if i < n - 1 {
        assert(members[i].0 != members[n - 1].0);
    }
    let m = members_shown(now);
    assert forall|name: Seq<char>| #[trigger] m.dom().contains(name) implies exists|j: int|
        0 <= j < n && (#[trigger] members[j]).0 == name by {
        if name == members[n - 1].0 {
        } else {
            assert(members_shown(members.take(n - 1)).dom().contains(name));
        }
    }
}

/// The other requests: the rate, the tracks and the volume that are named are
/// asked for as they are named, and nothing is asked where none is.
pub proof fn settings_are_handed_on(
    state: Option<Session>,
    e: Envelope,
    v: Tree,
    volume: Tree,
    transport: u128,
    session: u128,
)
    ensures
        ({
            let out = handled(state, e, v, transport, session);
            &&& e.namespace == "urn:x-cast:com.google.cast.media"@ && type_of(v)
                == "SET_PLAYBACK_RATE"@ ==> out == (
                state,
                match v.float_member("playbackRate"@) {
                    Some(rate) => seq![Done::Command(Asked::SetPlaybackRate(rate))],
                    None => Seq::empty(),
                },
            )
            &&& e.namespace == "urn:x-cast:com.google.cast.media"@ && type_of(v)
                == "EDIT_TRACKS_INFO"@ ==> out == (
                state,
                seq![Done::Command(Asked::EditTracks(ints_member(v, "activeTrackIds"@)))],
            )
            &&& e.namespace == "urn:x-cast:com.google.cast.receiver"@ && type_of(v)
                == "SET_VOLUME"@ ==> {
                &&& out.0 == state
                &&& v.member("volume"@) is None ==> out.1.len() == 0
                &&& v.member("volume"@) == Some(volume) ==> {
                    match (volume.float_member("level"@), volume.flag_member("muted"@)) {
                        (Some(l), None) => out.1 == seq![Done::Command(Asked::SetSystemVolume(l))],
                        (None, Some(m)) => out.1 == seq![Done::Command(Asked::SetSystemMute(m))],
                        (Some(l), Some(m)) => out.1 == seq![
                            Done::Command(Asked::SetSystemVolume(l)),
                            Done::Command(Asked::SetSystemMute(m)),
                        ],
                        (None, None) => out.1.len() == 0,
                    }
                }
            }
        }),
{
    lemma_namespaces_differ();
    lemma_player_words();
    let none = Seq::<Done>::empty();
    if let Some(l) = volume.float_member("level"@) {
        assert(seq![Done::Command(Asked::SetSystemVolume(l))] + none =~= seq![
            Done::Command(Asked::SetSystemVolume(l)),
        ]);
        if let Some(m) = volume.flag_member("muted"@) {
            assert(seq![Done::Command(Asked::SetSystemVolume(l))] + seq![
                Done::Command(Asked::SetSystemMute(m)),
            ] =~= seq![
                Done::Command(Asked::SetSystemVolume(l)),
                Done::Command(Asked::SetSystemMute(m)),
            ]);
        }
    }
    if let Some(m) = volume.flag_member("muted"@) {
        assert(none + seq![Done::Command(Asked::SetSystemMute(m))] =~= seq![
            Done::Command(Asked::SetSystemMute(m)),
        ]);
    }
}

/// The tracks that are asked for are the integers of the list, in its order,
/// and no others.
pub proof fn tracks_are_the_listed_integers(items: Seq<Tree>, n: Tree)
    ensures
        ints_among(items.push(n)) == match n.as_int() {
            Some(k) => ints_among(items).push(k),
            None => ints_among(items),
        },
        ints_among(Seq::empty()).len() == 0,
{
    assert(items.push(n).drop_last() =~= items);
}

/// A session that begins is idle at the start, with nothing launched or loaded,
/// serves whoever began it, and has the two identifiers, each of its own.
pub proof fn sessions_begin_idle(sender: Seq<char>, transport: u128, session: u128)
    ensures
        ({
            let s = fresh_session(sender, transport, session);
            &&& s.sender_id == sender
            &&& s.session_id == uuid_spelling(session)
            &&& s.transport_id == "transport-"@ + uuid_spelling(transport)
            &&& s.app_id is None
            &&& s.last_content_id is None
            &&& s.last_content_type is None
            &&& s.player_state == "IDLE"@
            &&& s.current_time == "0.0"@
            &&& s.media_session_id == 1
        }),
{
}

/// A connection makes its source the sender that is served, opens a session
/// where there is none, and changes nothing else of one that runs.
pub proof fn connecting_takes_the_session_over(
    s: Session,
    e: Envelope,
    v: Tree,
    transport: u128,
    session: u128,
)
    requires
        e.namespace == "urn:x-cast:com.google.cast.tp.connection"@,
        type_of(v) == "CONNECT"@,
    ensures
        handled(Some(s), e, v, transport, session).0 == Some(
            Session { sender_id: e.source_id, ..s },
        ),
        handled(None, e, v, transport, session).0 == Some(
            fresh_session(e.source_id, transport, session),
        ),
{
}

/// A load that names nothing to load is refused, and nothing else is.
pub proof fn only_empty_loads_are_refused(e: Envelope, v: Tree)
    ensures
        is_refused(e, v) <==> {
            &&& e.namespace == "urn:x-cast:com.google.cast.media"@
            &&& type_of(v) == "LOAD"@
            &&& load_url(v).len() == 0
        },
        e.payload_utf8 is None ==> payload_json(e) == "{}"@,
        e.payload_utf8 matches Some(text) ==> payload_json(e) == text,
{
}

} // verus!
