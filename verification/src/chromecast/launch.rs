//! Starting an application on a receiver: what is sent first, and how the
//! answer is recognised.

use vstd::prelude::*;
use vstd::string::*;

use crate::chromecast::castv2::{CastMessage, Envelope};
use crate::chromecast::messages::{
    connect_message, connection_envelope, get_status_message, launch_message, ping_message,
    to_platform, DEFAULT_RECEIVER_ID, DEFAULT_SENDER_ID,
};
use crate::chromecast::namespace;
use crate::chromecast::payload::{
    bare_request_json, request_json, type_json, ApplicationInfo, ReceiverStatus,
    ReceiverStatusPayload,
};
use crate::error::FerricastError;
use crate::text::{decimal, lowered, push_decimal, same_ignoring_case};

verus! {

/// The messages as envelopes.
pub open spec fn envelopes(messages: Seq<CastMessage>) -> Seq<Envelope> {
    messages.map_values(|m: CastMessage| m@)
}

/// What is sent first: a connection to the platform, a ping, the launch as
/// request one, and a request for the status as request two.
pub open spec fn opening(app_id: Seq<char>) -> Seq<Envelope> {
    seq![
        connection_envelope(DEFAULT_SENDER_ID@, DEFAULT_RECEIVER_ID@, "CONNECT"@),
        to_platform(namespace::HEARTBEAT@, type_json("PING"@)),
        to_platform(namespace::RECEIVER@, request_json("LAUNCH"@, 1, "appId"@, app_id)),
        to_platform(namespace::RECEIVER@, bare_request_json("GET_STATUS"@, 2)),
    ]
}

/// The number of the first request after the opening.
pub const NEXT_REQUEST_ID: i64 = 3;

fn push_made<E>(messages: &mut Vec<CastMessage>, made: Result<CastMessage, E>)
    requires
        made is Ok,
    ensures
        envelopes(final(messages)@) == envelopes(old(messages)@).push(made->Ok_0@),
{
    let ghost before = messages@;
    match made {
        Ok(m) => {
            messages.push(m);
            assert(envelopes(messages@) =~= envelopes(before).push(m@));
        },
        Err(_) => {},
    }
}

/// What is sent first to start the application.
pub fn opening_messages(app_id: &str) -> (messages: Vec<CastMessage>)
    ensures
        envelopes(messages@) == opening(app_id@),
{
    let mut messages: Vec<CastMessage> = Vec::new();
    assert(envelopes(messages@) =~= Seq::<Envelope>::empty());
    push_made(&mut messages, connect_message(DEFAULT_SENDER_ID, DEFAULT_RECEIVER_ID));
    push_made(&mut messages, ping_message());
    push_made(&mut messages, launch_message(1, app_id));
    push_made(&mut messages, get_status_message(2));
    assert(envelopes(messages@) =~= opening(app_id@));
    messages
}

/// The messages that end a session: the application is stopped, then the
/// connection to the platform is closed.
pub open spec fn closing(request_id: i64, session_id: Seq<char>) -> Seq<Envelope> {
    seq![
        to_platform(
            namespace::RECEIVER@,
            request_json("STOP"@, request_id, "sessionId"@, session_id),
        ),
        connection_envelope(DEFAULT_SENDER_ID@, DEFAULT_RECEIVER_ID@, "CLOSE"@),
    ]
}

/// The messages that end a session.
pub fn closing_messages(request_id: i64, session_id: &str) -> (messages: Vec<CastMessage>)
    ensures
        envelopes(messages@) == closing(request_id, session_id@),
{
    let mut messages: Vec<CastMessage> = Vec::new();
    assert(envelopes(messages@) =~= Seq::<Envelope>::empty());
    push_made(
        &mut messages,
        crate::chromecast::messages::stop_app_message(request_id, session_id),
    );
    push_made(
        &mut messages,
        crate::chromecast::messages::close_message(DEFAULT_SENDER_ID, DEFAULT_RECEIVER_ID),
    );
    assert(envelopes(messages@) =~= closing(request_id, session_id@));
    messages
}

/// The number of the next request; the numbers wrap around.
pub open spec fn next_id(id: i64) -> i64 {
    if id == i64::MAX {
        i64::MIN
    } else {
        (id + 1) as i64
    }
}

/// The number of the next request.
pub fn bump(id: i64) -> (next: i64)
    ensures
        next == next_id(id),
{
    if id == i64::MAX {
        i64::MIN
    } else {
        id + 1
    }
}

/// The place of the first application with the identifier from `from` on,
/// whatever its case, or the number of applications.
pub open spec fn app_place(apps: Seq<ApplicationInfo>, app_id: Seq<char>, from: int) -> int
    decreases apps.len() - from,
{
    if from >= apps.len() {
        apps.len() as int
    } else if lowered(apps[from].app_id@) == lowered(app_id) {
        from
    } else {
        app_place(apps, app_id, from + 1)
    }
}

fn find_app(apps: &Vec<ApplicationInfo>, app_id: &str) -> (at: usize)
    ensures
        at == app_place(apps@, app_id@, 0),
        at <= apps@.len(),
{
    let mut i: usize = 0;
    while i < apps.len()
        invariant
            i <= apps@.len(),
            app_place(apps@, app_id@, i as int) == app_place(apps@, app_id@, 0),
        decreases apps@.len() - i,
    {
        if same_ignoring_case(apps[i].app_id.as_str(), app_id) {
            return i;
        }
        i = i + 1;
    }
    i
}

/// What a status says of an application.
#[derive(Debug, PartialEq, Eq)]
pub enum ExtractApp {
    /// The application runs: its transport and its session.
    Found(String, String),
    /// The application is not ready, and why.
    Pending(String),
    /// The message is no status, or a status without its block.
    Skip,
}

/// What a status says of an application, in words.
pub enum Extracted {
    Found(Seq<char>, Seq<char>),
    Pending(Seq<char>),
    Skip,
}

impl View for ExtractApp {
    type V = Extracted;

    open spec fn view(&self) -> Extracted {
        match self {
            ExtractApp::Found(t, s) => Extracted::Found(t@, s@),
            ExtractApp::Pending(reason) => Extracted::Pending(reason@),
            ExtractApp::Skip => Extracted::Skip,
        }
    }
}

/// What a status says of an application: it has to be listed, with a
/// transport and a session.
pub open spec fn extracted(payload: Option<ReceiverStatusPayload>, app_id: Seq<char>) -> Extracted {
    match payload {
        None => Extracted::Skip,
        Some(p) => match p.status {
            None => Extracted::Skip,
            Some(s) => {
                let apps = s.applications@;
                let at = app_place(apps, app_id, 0);
                if at == apps.len() {
                    Extracted::Pending(
                        "our app not in applications list ("@ + decimal(apps.len())
                            + " entries)"@,
                    )
                } else if apps[at].transport_id@.len() == 0 || apps[at].session_id@.len() == 0 {
                    Extracted::Pending(
                        "app entry incomplete (transport_id='"@ + apps[at].transport_id@
                            + "', session_id='"@ + apps[at].session_id@ + "')"@,
                    )
                } else {
                    Extracted::Found(apps[at].transport_id@, apps[at].session_id@)
                }
            },
        },
    }
}

/// What a status says of an application; a message that could not be read as
/// a status is skipped, and so is one that holds no status.
pub fn try_extract_app(payload: Option<&ReceiverStatusPayload>, app_id: &str) -> (out: ExtractApp)
    ensures
        out@ == extracted(
            match payload {
                Some(p) => Some(*p),
                None => None,
            },
            app_id@,
        ),
{
    let p: &ReceiverStatusPayload = match payload {
        Some(p) => p,
        None => {
            return ExtractApp::Skip;
        },
    };
    match &p.status {
        None => ExtractApp::Skip,
        Some(s) => {
            let at: usize = find_app(&s.applications, app_id);
            if at == s.applications.len() {
                let mut reason: String = "our app not in applications list (".to_owned();
                push_decimal(&mut reason, s.applications.len() as u64);
                reason.append(" entries)");
                return ExtractApp::Pending(reason);
            }
            let app: &ApplicationInfo = &s.applications[at];
            if app.transport_id.as_str().unicode_len() == 0
                || app.session_id.as_str().unicode_len() == 0 {
                let mut reason: String = "app entry incomplete (transport_id='".to_owned();
                reason.append(app.transport_id.as_str());
                reason.append("', session_id='");
                reason.append(app.session_id.as_str());
                reason.append("')");
                return ExtractApp::Pending(reason);
            }
            ExtractApp::Found(app.transport_id.clone(), app.session_id.clone())
        },
    }
}

/// The transport and the session of an application that runs.
pub fn extract_app_ids(payload: Option<&ReceiverStatusPayload>, app_id: &str) -> (ids: Option<
    (String, String),
>)
    ensures
        ({
            let said = extracted(
                match payload {
                    Some(p) => Some(*p),
                    None => None,
                },
                app_id@,
            );
            match ids {
                Some(i) => said == Extracted::Found(i.0@, i.1@),
                None => !(said is Found),
            }
        }),
{
    match try_extract_app(payload, app_id) {
        ExtractApp::Found(t, s) => Some((t, s)),
        ExtractApp::Pending(_) => None,
        ExtractApp::Skip => None,
    }
}

/// What came of waiting for an answer.
pub enum Waited<T> {
    Answer(T),
    Failed(FerricastError),
    /// Nobody reads the connection any more.
    Exited,
    TimedOut,
}

/// The answer that was waited for, or why there is none.
pub fn waited<T>(outcome: Waited<T>, exited: &str, timed_out: &str) -> (out: Result<
    T,
    FerricastError,
>)
    ensures
        match outcome {
            Waited::Answer(t) => out == Ok::<T, FerricastError>(t),
            Waited::Failed(e) => out == Err::<T, FerricastError>(e),
            Waited::Exited => out matches Err(e) && e.is_connection(exited@),
            Waited::TimedOut => out matches Err(FerricastError::Timeout(m)) && m@ == timed_out@,
        },
{
    match outcome {
        Waited::Answer(t) => Ok(t),
        Waited::Failed(e) => Err(e),
        Waited::Exited => Err(FerricastError::Connection(exited.to_owned())),
        Waited::TimedOut => Err(FerricastError::Timeout(timed_out.to_owned())),
    }
}

/// A session opens with a connection to the platform, a ping, the launch of the
/// application, and a request for the status, in this order and with numbers of
/// their own; it goes on with the next number. It ends by stopping its own
/// session and closing the connection.
pub proof fn sessions_open_and_close_by_the_book(app_id: Seq<char>, id: i64, session: Seq<char>)
    ensures
        opening(app_id).len() == 4,
        opening(app_id)[0] == connection_envelope("sender-0"@, "receiver-0"@, "CONNECT"@),
        opening(app_id)[1] == to_platform(
            "urn:x-cast:com.google.cast.tp.heartbeat"@,
            type_json("PING"@),
        ),
        opening(app_id)[2] == to_platform(
            "urn:x-cast:com.google.cast.receiver"@,
            request_json("LAUNCH"@, 1, "appId"@, app_id),
        ),
        opening(app_id)[3] == to_platform(
            "urn:x-cast:com.google.cast.receiver"@,
            bare_request_json("GET_STATUS"@, 2),
        ),
        NEXT_REQUEST_ID == 3,
        closing(id, session).len() == 2,
        closing(id, session)[0] == to_platform(
            "urn:x-cast:com.google.cast.receiver"@,
            request_json("STOP"@, id, "sessionId"@, session),
        ),
        closing(id, session)[1] == connection_envelope("sender-0"@, "receiver-0"@, "CLOSE"@),
{
}

/// Requests are numbered one after another, apart from the wrap.
pub proof fn requests_are_numbered(id: i64)
    ensures
        id < i64::MAX ==> next_id(id) == id + 1,
        next_id(i64::MAX) == i64::MIN,
{
}

/// The application that was launched is found in the status by its identifier,
/// whatever the case of its letters, as soon as it has a transport and a session,
/// which are handed back in this order. Until then it is waited for.
pub proof fn running_application_is_found(
    p: ReceiverStatusPayload,
    s: ReceiverStatus,
    app_id: Seq<char>,
    i: int,
)
    requires
        p.status == Some(s),
        0 <= i < s.applications@.len(),
        lowered(s.applications@[i].app_id@) == lowered(app_id),
        forall|j: int|
            0 <= j < i ==> lowered((#[trigger] s.applications@[j]).app_id@) != lowered(app_id),
    ensures
        ({
            let app = s.applications@[i];
            let said = extracted(Some(p), app_id);
            if app.transport_id@.len() > 0 && app.session_id@.len() > 0 {
                said == Extracted::Found(app.transport_id@, app.session_id@)
            } else {
                said is Pending
            }
        }),
        extracted(None, app_id) is Skip,
{
    lemma_app_place(s.applications@, app_id, 0, i);
}

proof fn lemma_app_place(apps: Seq<ApplicationInfo>, app_id: Seq<char>, from: int, i: int)
    requires
        0 <= from <= i < apps.len(),
        lowered(apps[i].app_id@) == lowered(app_id),
        forall|j: int| 0 <= j < i ==> lowered((#[trigger] apps[j]).app_id@) != lowered(app_id),
    ensures
        app_place(apps, app_id, from) == i,
    decreases i - from,
{
    if from < i {
        assert(lowered(apps[from].app_id@) != lowered(app_id));
        lemma_app_place(apps, app_id, from + 1, i);
    }
}

/// An application that is not listed is waited for, and a message without a
/// status is passed over.
pub proof fn missing_application_is_waited_for(
    p: ReceiverStatusPayload,
    app_id: Seq<char>,
)
    ensures
        p.status is None ==> extracted(Some(p), app_id) is Skip,
        p.status matches Some(s) ==> (forall|j: int|
            0 <= j < s.applications@.len() ==> lowered(
                (#[trigger] s.applications@[j]).app_id@,
            ) != lowered(app_id)) ==> extracted(Some(p), app_id) is Pending,
{
    if let Some(s) = p.status {
        if forall|j: int|
            0 <= j < s.applications@.len() ==> lowered(
                (#[trigger] s.applications@[j]).app_id@,
            ) != lowered(app_id) {
            lemma_no_app(s.applications@, app_id, 0);
        }
    }
}

proof fn lemma_no_app(apps: Seq<ApplicationInfo>, app_id: Seq<char>, from: int)
    requires
        0 <= from <= apps.len(),
        forall|j: int|
            0 <= j < apps.len() ==> lowered((#[trigger] apps[j]).app_id@) != lowered(app_id),
    ensures
        app_place(apps, app_id, from) == apps.len(),
    decreases apps.len() - from,
{
    if from < apps.len() {
        assert(lowered(apps[from].app_id@) != lowered(app_id));
        lemma_no_app(apps, app_id, from + 1);
    }
}

} // verus!
