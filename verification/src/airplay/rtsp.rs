//! RTSP as AirPlay speaks it: requests with running numbers, and replies read
//! line by line.

use vstd::prelude::*;
use vstd::string::*;
use vstd::utf8::encode_utf8;

use crate::error::FerricastError;
use crate::text::{
    chars_of, decimal, decimal_is_read_back, decimal_text, decimals_hold_only_digits, find_char,
    find_from, join2, lemma_find_from, parse_number, parse_unsigned, push_decimal, split, split_on,
    str_eq, text_of, trim, trimmed, utf8_bytes, white_space_around_is_lost,
};
use crate::text_map::TextMap;

verus! {

/// Hands out request builders with running sequence numbers.
pub struct RtspManager {
    last: u64,
}

impl RtspManager {
    /// The number of the last request handed out; zero before the first.
    pub closed spec fn last(self) -> u64 {
        self.last
    }

    /// A manager that has handed out no request.
    pub fn new() -> (manager: Self)
        ensures
            manager.last() == 0,
    {
        RtspManager { last: 0 }
    }

    /// The builder of the next request; numbers start at one and wrap around.
    pub fn builder(&mut self) -> (request: RtspReqBuilder)
        ensures
            final(self).last() == next_cseq(old(self).last()),
            request@ == fresh_request(final(self).last()),
    {
        self.last = self.last.wrapping_add(1);
        RtspReqBuilder::new(self.last)
    }
}

/// The sequence number after `last`.
pub open spec fn next_cseq(last: u64) -> u64 {
    if last == u64::MAX {
        0
    } else {
        (last + 1) as u64
    }
}

/// The sequence number of the `n`-th request of a manager that starts afresh.
pub open spec fn nth_cseq(n: nat) -> u64
    decreases n,
{
    if n == 0 {
        0
    } else {
        next_cseq(nth_cseq((n - 1) as nat))
    }
}

/// The requests of one manager are numbered one, two, three and so on.
pub proof fn cseq_counts_up(n: nat)
    requires
        n <= u64::MAX,
    ensures
        nth_cseq(n) == n,
    decreases n,
{
    if n > 0 {
        cseq_counts_up((n - 1) as nat);
    }
}

/// The method of a request.
#[derive(Clone, Copy, Debug, PartialEq, Eq, Structural)]
pub enum Method {
    POST,
    OPTIONS,
}

/// What a request under construction holds.
pub struct Request {
    pub cseq: u64,
    pub method: Method,
    pub path: Seq<char>,
    pub content_type: Seq<char>,
    pub body: Seq<u8>,
    pub headers: Seq<(Seq<char>, Seq<char>)>,
}

/// A request as a builder starts out.
pub open spec fn fresh_request(cseq: u64) -> Request {
    Request {
        cseq,
        method: Method::POST,
        path: Seq::empty(),
        content_type: Seq::empty(),
        body: Seq::empty(),
        headers: seq![("User-Agent"@, "AirPlay/381.13"@), ("X-Apple-HKP"@, "3"@)],
    }
}

/// The request with a body, and with a header for its length at the end.
pub open spec fn with_body(request: Request, body: Seq<u8>) -> Request {
    Request {
        body,
        headers: request.headers.push(("Content-Length"@, decimal(body.len()))),
        ..request
    }
}

/// The word of the method.
pub open spec fn method_word(method: Method) -> Seq<char> {
    match method {
        Method::POST => "POST"@,
        Method::OPTIONS => "OPTIONS"@,
    }
}

/// The header lines.
pub open spec fn header_lines(headers: Seq<(Seq<char>, Seq<char>)>) -> Seq<char>
    decreases headers.len(),
{
    if headers.len() == 0 {
        Seq::empty()
    } else {
        header_lines(headers.drop_last()) + headers.last().0 + ": "@ + headers.last().1 + "\r\n"@
    }
}

/// The head of the request: request line, sequence number, content type where
/// there is one, the other headers, and an empty line.
pub open spec fn request_head(request: Request) -> Seq<char> {
    method_word(request.method) + " "@ + request.path + " RTSP/1.0\r\nCSeq: "@ + decimal(
        request.cseq as nat,
    ) + "\r\n"@ + (if request.content_type.len() == 0 {
        Seq::empty()
    } else {
        "Content-Type: "@ + request.content_type + "\r\n"@
    }) + header_lines(request.headers) + "\r\n"@
}

/// A request under construction.
pub struct RtspReqBuilder {
    cseq: u64,
    method: Method,
    path: String,
    content_type: String,
    body: Vec<u8>,
    headers: Vec<(String, String)>,
}

/// The headers as text.
pub open spec fn headers_text(headers: Seq<(String, String)>) -> Seq<(Seq<char>, Seq<char>)> {
    headers.map_values(|h: (String, String)| (h.0@, h.1@))
}

impl View for RtspReqBuilder {
    type V = Request;

    closed spec fn view(&self) -> Request {
        Request {
            cseq: self.cseq,
            method: self.method,
            path: self.path@,
            content_type: self.content_type@,
            body: self.body@,
            headers: headers_text(self.headers@),
        }
    }
}

impl RtspReqBuilder {
    fn new(cseq: u64) -> (request: Self)
        ensures
            request@ == fresh_request(cseq),
    {
        let mut headers: Vec<(String, String)> = Vec::new();
        headers.push(("User-Agent".to_owned(), "AirPlay/381.13".to_owned()));
        headers.push(("X-Apple-HKP".to_owned(), "3".to_owned()));
        assert(headers_text(headers@) =~= fresh_request(cseq).headers);
        RtspReqBuilder {
            cseq,
            method: Method::POST,
            path: String::new(),
            content_type: String::new(),
            body: Vec::new(),
            headers,
        }
    }

    /// The request on `path`.
    pub fn path(self, path: String) -> (request: Self)
        ensures
            request@ == (Request { path: path@, ..self@ }),
    {
        RtspReqBuilder { path, ..self }
    }

    /// The request as a POST.
    pub fn post(self) -> (request: Self)
        ensures
            request@ == (Request { method: Method::POST, ..self@ }),
    {
        RtspReqBuilder { method: Method::POST, ..self }
    }

    /// The request as an OPTIONS.
    pub fn options(self) -> (request: Self)
        ensures
            request@ == (Request { method: Method::OPTIONS, ..self@ }),
    {
        RtspReqBuilder { method: Method::OPTIONS, ..self }
    }

    /// The request with a content type.
    pub fn content_type(self, content_type: String) -> (request: Self)
        ensures
            request@ == (Request { content_type: content_type@, ..self@ }),
    {
        RtspReqBuilder { content_type, ..self }
    }

    /// The request with a body, and a header for its length.
    pub fn body(self, body: Vec<u8>) -> (request: Self)
        ensures
            request@ == with_body(self@, body@),
    {
        let mut headers: Vec<(String, String)> = self.headers;
        let ghost before = headers@;
        headers.push(("Content-Length".to_owned(), decimal_text(body.len() as u64)));
        assert(headers_text(headers@) =~= headers_text(before).push(
            ("Content-Length"@, decimal(body@.len())),
        ));
        RtspReqBuilder {
            cseq: self.cseq,
            method: self.method,
            path: self.path,
            content_type: self.content_type,
            body,
            headers,
        }
    }

    /// The request with one more header at the end.
    pub fn header(self, header: (String, String)) -> (request: Self)
        ensures
            request@ == (Request {
                headers: self@.headers.push((header.0@, header.1@)),
                ..self@
            }),
    {
        let mut headers: Vec<(String, String)> = self.headers;
        let ghost before = headers@;
        headers.push(header);
        assert(headers_text(headers@) =~= headers_text(before).push((header.0@, header.1@)));
        RtspReqBuilder {
            cseq: self.cseq,
            method: self.method,
            path: self.path,
            content_type: self.content_type,
            body: self.body,
            headers,
        }
    }

    /// What goes over the wire, in order: the head, then the body where there
    /// is one.
    pub fn write(self) -> (chunks: Vec<Vec<u8>>)
        ensures
            chunks@.len() == if self@.body.len() == 0 { 1nat } else { 2 },
            chunks@[0]@ == encode_utf8(request_head(self@)),
            self@.body.len() > 0 ==> chunks@[1]@ == self@.body,
    {
        let mut head: String = match self.method {
            Method::POST => "POST".to_owned(),
            Method::OPTIONS => "OPTIONS".to_owned(),
        };
        head.append(" ");
        head.append(self.path.as_str());
        head.append(" RTSP/1.0\r\nCSeq: ");
        push_decimal(&mut head, self.cseq);
        head.append("\r\n");
        let ghost first = head@;
        if !self.content_type.as_str().is_empty() {
            head.append("Content-Type: ");
            head.append(self.content_type.as_str());
            head.append("\r\n");
        }
        let ghost typed = head@;
        let ghost all = headers_text(self.headers@);
        proof {
            let content_type = if self@.content_type.len() == 0 {
                Seq::empty()
            } else {
                "Content-Type: "@ + self@.content_type + "\r\n"@
            };
            assert(vstd::utf8::encode_utf8(self.content_type@).len() == 0
                <==> self.content_type@.len() == 0) by {
                vstd::utf8::encode_utf8_decode_utf8(self.content_type@);
                vstd::utf8::encode_utf8_decode_utf8(Seq::<char>::empty());
            }
            assert(typed =~= first + content_type);
            assert(all.take(0) =~= Seq::empty());
            assert(head@ =~= typed + header_lines(all.take(0)));
        }
        let mut i: usize = 0;
        while i < self.headers.len()
            invariant
                all == headers_text(self.headers@),
                i <= self.headers@.len(),
                head@ == typed + header_lines(all.take(i as int)),
            decreases self.headers@.len() - i,
        {
            head.append(self.headers[i].0.as_str());
            head.append(": ");
            head.append(self.headers[i].1.as_str());
            head.append("\r\n");
            proof {
                let next = all.take(i + 1);
                assert(next.drop_last() =~= all.take(i as int));
                assert(next.last() == all[i as int]);
                assert(head@ =~= typed + header_lines(next));
            }
            i = i + 1;
        }
        assert(all.take(all.len() as int) =~= all);
        head.append("\r\n");
        assert(head@ =~= request_head(self@));
        let mut chunks: Vec<Vec<u8>> = Vec::new();
        chunks.push(utf8_bytes(head.as_str()));
        if self.body.len() > 0 {
            chunks.push(self.body);
        }
        chunks
    }
}

/// The first line of a reply.
#[derive(Debug, PartialEq, Eq)]
pub struct StatusLine {
    pub status_code: u16,
    pub description: String,
}

/// The words of a line between single spaces.
pub open spec fn word(line: Seq<char>, i: int) -> Seq<char> {
    let words = split_on(line, ' ');
    if i < words.len() {
        words[i]
    } else {
        Seq::empty()
    }
}

/// The status code and the description of a status line, where it is one.
pub open spec fn status_of(line: Seq<char>) -> Option<(u16, Seq<char>)> {
    match parse_unsigned(word(line, 1), 10, 65535) {
        Some(code) if word(line, 0) == "RTSP/1.0"@ => Some((code as u16, word(line, 2))),
        _ => None,
    }
}

/// The name and the value of a header line, where it is one.
pub open spec fn field_of(line: Seq<char>) -> Option<(Seq<char>, Seq<char>)> {
    let at = find_from(line, ':', 0);
    if at < line.len() {
        Some((trimmed(line.take(at)), trimmed(line.skip(at + 1))))
    } else {
        None
    }
}

/// Whether the status code is one of success.
pub open spec fn succeeded(code: u16) -> bool {
    200 <= code <= 299
}

/// What std says of text that is no number of 16 bits.
pub uninterp spec fn u16_parse_complaint(text: Seq<char>) -> Seq<char>;

/// The message of `str::parse::<u16>` of std on text that it refuses; nothing
/// is said of what it is on other text.
#[verifier::external_body]
fn u16_complaint(text: &str) -> (message: String)
    ensures
        message@ == u16_parse_complaint(text@),
{
    match text.parse::<u16>() {
        Ok(_) => String::new(),
        Err(e) => e.to_string(),
    }
}

impl StatusLine {
    /// Reads a status line: the protocol version, the status code, and one
    /// word of description, which is empty where there is none.
    pub fn read(status_line: &str) -> (out: Result<Self, FerricastError>)
        ensures
            match out {
                Ok(s) => word(status_line@, 0) == "RTSP/1.0"@ && parse_unsigned(
                    word(status_line@, 1),
                    10,
                    65535,
                ) == Some(s.status_code as nat) && s.description@ == word(status_line@, 2),
                Err(e) => if word(status_line@, 0) != "RTSP/1.0"@ {
                    e.is_rtsp("Invalid Rtsp version"@)
                } else {
                    &&& parse_unsigned(word(status_line@, 1), 10, 65535) is None
                    &&& e.is_rtsp(
                        "Invalid status code, "@ + u16_parse_complaint(word(status_line@, 1)),
                    )
                },
            },
    {
        let words: Vec<String> = split(status_line, ' ');
        let ghost all = split_on(status_line@, ' ');
        assert(all.len() == words@.len());
        assert(forall|k: int| 0 <= k < words@.len() ==> all[k] == words@[k]@) by {
            assert(forall|k: int|
                0 <= k < words@.len() ==> words@.map_values(|p: String| p@)[k] == words@[k]@);
        }
        if !str_eq(words[0].as_str(), "RTSP/1.0") {
            return Err(FerricastError::Rtsp("Invalid Rtsp version".to_owned()));
        }
        let code: &str = if words.len() > 1 {
            words[1].as_str()
        } else {
            ""
        };
        proof {
            reveal_strlit("");
            assert(words@.len() <= 1 ==> code@ =~= Seq::<char>::empty());
        }
        match parse_number(code, 10, 65535) {
            Some(v) => {
                let description: String = if words.len() > 2 {
                    words[2].clone()
                } else {
                    String::new()
                };
                assert(words@.len() <= 2 ==> description@ =~= Seq::<char>::empty());
                Ok(StatusLine { status_code: v as u16, description })
            },
            None => {
                let complaint: String = u16_complaint(code);
                Err(FerricastError::Rtsp(join2("Invalid status code, ", complaint.as_str())))
            },
        }
    }
}

/// A complete reply.
pub struct RtspResponse {
    status_line: StatusLine,
    headers: TextMap<String>,
    content: Option<Vec<u8>>,
}

/// What to do after a line of a reply's head.
#[derive(Debug, PartialEq, Eq)]
pub enum HeadStep {
    /// Read another line.
    More,
    /// The head is complete.
    Complete,
}

/// The head of a reply as far as it was read.
pub struct ResponseHead {
    status_line: Option<StatusLine>,
    headers: TextMap<String>,
}

/// The headers of a reply as text.
pub open spec fn header_map(headers: Map<Seq<char>, String>) -> Map<Seq<char>, Seq<char>> {
    headers.map_values(|v: String| v@)
}

impl ResponseHead {
    /// The status code and description, once the first line was read.
    pub closed spec fn status(self) -> Option<(u16, Seq<char>)> {
        match self.status_line {
            Some(s) => Some((s.status_code, s.description@)),
            None => None,
        }
    }

    /// The headers so far.
    pub closed spec fn fields(self) -> Map<Seq<char>, Seq<char>> {
        header_map(self.headers@)
    }

    /// A head of which nothing was read.
    pub fn new() -> (head: Self)
        ensures
            head.status() is None,
            head.fields() == Map::<Seq<char>, Seq<char>>::empty(),
    {
        let head = ResponseHead { status_line: None, headers: TextMap::new() };
        assert(head.fields() =~= Map::<Seq<char>, Seq<char>>::empty());
        head
    }

    /// Takes one line, its line end still on it. An empty line completes the
    /// head; the first other line is the status line, each later one a header
    /// whose name and value are parted by its first colon, both trimmed. A
    /// header that comes again replaces the earlier one.
    pub fn line(&mut self, line: &str) -> (out: Result<HeadStep, FerricastError>)
        ensures
            line@ == "\r\n"@ ==> out == Ok::<HeadStep, FerricastError>(HeadStep::Complete)
                && *final(self) == *old(self),
            line@ != "\r\n"@ && old(self).status() is None ==> {
                &&& final(self).fields() == old(self).fields()
                &&& match out {
                    Ok(step) => step == HeadStep::More && status_of(line@) is Some
                        && final(self).status() == status_of(line@),
                    Err(e) => final(self).status() is None && if word(line@, 0)
                        != "RTSP/1.0"@ {
                        e.is_rtsp("Invalid Rtsp version"@)
                    } else {
                        &&& parse_unsigned(word(line@, 1), 10, 65535) is None
                        &&& e.is_rtsp(
                            "Invalid status code, "@ + u16_parse_complaint(word(line@, 1)),
                        )
                    },
                }
            },
            line@ != "\r\n"@ && old(self).status() is Some ==> {
                &&& final(self).status() == old(self).status()
                &&& match out {
                    Ok(step) => step == HeadStep::More && field_of(line@) is Some
                        && final(self).fields() == old(self).fields().insert(
                        (field_of(line@)->0).0,
                        (field_of(line@)->0).1,
                    ),
                    Err(e) => field_of(line@) is None && final(self).fields() == old(self).fields()
                        && e.is_rtsp("Invalid RTSP header format"@),
                }
            },
    {
        if str_eq(line, "\r\n") {
            return Ok(HeadStep::Complete);
        }
        if self.status_line.is_none() {
            match StatusLine::read(line) {
                Ok(s) => {
                    self.status_line = Some(s);
                    return Ok(HeadStep::More);
                },
                Err(e) => {
                    return Err(e);
                },
            }
        }
        let chars: Vec<char> = chars_of(line);
        let at: usize = find_char(chars.as_slice(), ':', 0);
        if at == chars.len() {
            return Err(FerricastError::Rtsp("Invalid RTSP header format".to_owned()));
        }
        let name: String = text_of(chars.as_slice(), 0, at);
        let value: String = text_of(chars.as_slice(), at + 1, chars.len());
        proof {
            assert(name@ =~= line@.take(at as int));
            assert(value@ =~= line@.skip(at + 1));
        }
        let key: String = trim(name.as_str());
        let field: String = trim(value.as_str());
        let ghost before = self.headers@;
        self.headers.insert(key, field);
        assert(header_map(self.headers@) =~= header_map(before).insert(key@, field@));
        Ok(HeadStep::More)
    }

    /// How many bytes of content follow the head, if the head says so.
    pub fn content_length(&self) -> (out: Result<Option<usize>, FerricastError>)
        ensures
            match out {
                Ok(None) => !self.fields().dom().contains("Content-Length"@),
                Ok(Some(n)) => self.fields().dom().contains("Content-Length"@)
                    && parse_unsigned(
                    self.fields()["Content-Length"@],
                    10,
                    usize::MAX as nat,
                ) == Some(n as nat),
                Err(e) => self.fields().dom().contains("Content-Length"@) && parse_unsigned(
                    self.fields()["Content-Length"@],
                    10,
                    usize::MAX as nat,
                ) is None && e.is_rtsp("Invalid Content-Length Header"@),
            },
    {
        match self.headers.get("Content-Length") {
            Some(v) => match parse_number(v.as_str(), 10, usize::MAX as u64) {
                Some(n) => Ok(Some(n as usize)),
                None => Err(FerricastError::Rtsp("Invalid Content-Length Header".to_owned())),
            },
            None => Ok(None),
        }
    }

    /// The reply, once the content was read; a head without a status line is
    /// no reply.
    pub fn finish(self, content: Option<Vec<u8>>) -> (out: Result<RtspResponse, FerricastError>)
        ensures
            match out {
                Ok(r) => self.status() == Some((r.status_code(), r.description())) && r.fields()
                    == self.fields() && r.body() == content,
                Err(e) => self.status() is None && e.is_rtsp("Invalid RTSP Response"@),
            },
    {
        match self.status_line {
            Some(status_line) => Ok(RtspResponse { status_line, headers: self.headers, content }),
            None => Err(FerricastError::Rtsp("Invalid RTSP Response".to_owned())),
        }
    }
}

impl RtspResponse {
    /// The status code.
    pub closed spec fn status_code(self) -> u16 {
        self.status_line.status_code
    }

    /// The description of the status.
    pub closed spec fn description(self) -> Seq<char> {
        self.status_line.description@
    }

    /// The headers.
    pub closed spec fn fields(self) -> Map<Seq<char>, Seq<char>> {
        header_map(self.headers@)
    }

    /// The content.
    pub closed spec fn body(self) -> Option<Vec<u8>> {
        self.content
    }

    /// Accepts a reply with a success code, refuses any other.
    pub fn is_ok(&self) -> (out: Result<(), FerricastError>)
        ensures
            match out {
                Ok(()) => succeeded(self.status_code()),
                Err(e) => !succeeded(self.status_code()) && e.is_rtsp(
                    "RTSP Response failed with code "@ + decimal(self.status_code() as nat),
                ),
            },
    {
        if self.is_success() {
            return Ok(());
        }
        let code: String = decimal_text(self.status_line.status_code as u64);
        Err(FerricastError::Rtsp(join2("RTSP Response failed with code ", code.as_str())))
    }

    /// Whether the status code is one of success.
    pub fn is_success(&self) -> (success: bool)
        ensures
            success == succeeded(self.status_code()),
    {
        200 <= self.status_line.status_code && self.status_line.status_code <= 299
    }

    /// The content, or an error where the reply has none.
    pub fn content(&self) -> (out: Result<&Vec<u8>, FerricastError>)
        ensures
            match out {
                Ok(bytes) => self.body() == Some(*bytes),
                Err(e) => self.body() is None && e.is_rtsp("RTSP Response has no content"@),
            },
    {
        match &self.content {
            Some(bytes) => Ok(bytes),
            None => Err(FerricastError::Rtsp("RTSP Response has no content".to_owned())),
        }
    }

    /// The value of a header.
    pub fn header(&self, name: &str) -> (value: Option<&String>)
        ensures
            match value {
                Some(v) => self.fields().dom().contains(name@) && self.fields()[name@] == v@,
                None => !self.fields().dom().contains(name@),
            },
    {
        self.headers.get(name)
    }
}

/// A request starts with its method, its path and the version of the protocol,
/// carries its number in the next line, and ends its head with an empty line.
pub proof fn request_is_written_by_the_book(r: Request)
    ensures
        ({
            let start = (if r.method == Method::POST {
                "POST"@
            } else {
                "OPTIONS"@
            }) + " "@ + r.path + " RTSP/1.0\r\n"@;
            let number = "CSeq: "@ + decimal(r.cseq as nat) + "\r\n"@;
            let kind = if r.content_type.len() == 0 {
                Seq::empty()
            } else {
                "Content-Type: "@ + r.content_type + "\r\n"@
            };
            request_head(r) == start + number + kind + header_lines(r.headers) + "\r\n"@
        }),
{
    reveal_strlit(" RTSP/1.0\r\nCSeq: ");
    reveal_strlit(" RTSP/1.0\r\n");
    reveal_strlit("CSeq: ");
    assert(" RTSP/1.0\r\nCSeq: "@.len() == 17 && " RTSP/1.0\r\n"@.len() == 11 && "CSeq: "@.len()
        == 6);
    assert(" RTSP/1.0\r\nCSeq: "@ =~= " RTSP/1.0\r\n"@ + "CSeq: "@);
    let start = (if r.method == Method::POST {
        "POST"@
    } else {
        "OPTIONS"@
    }) + " "@ + r.path + " RTSP/1.0\r\n"@;
    let number = "CSeq: "@ + decimal(r.cseq as nat) + "\r\n"@;
    let kind = if r.content_type.len() == 0 {
        Seq::empty()
    } else {
        "Content-Type: "@ + r.content_type + "\r\n"@
    };
    assert(request_head(r) =~= start + number + kind + header_lines(r.headers) + "\r\n"@);
}

/// Each header is a line of its own: its name, a colon and a space, and its
/// value, in the order in which the headers were given.
pub proof fn headers_are_lines(headers: Seq<(Seq<char>, Seq<char>)>, name: Seq<char>, value: Seq<char>)
    ensures
        header_lines(headers.push((name, value))) == header_lines(headers) + name + ": "@ + value
            + "\r\n"@,
        header_lines(Seq::empty()) == Seq::<char>::empty(),
{
    assert(headers.push((name, value)).drop_last() =~= headers);
}

/// A request begins as a POST without a path or a body, and names the client; a
/// body that is given goes with a header of its length and changes nothing else.
pub proof fn requests_begin_plain(cseq: u64, body: Seq<u8>)
    ensures
        ({
            let r = fresh_request(cseq);
            let b = with_body(r, body);
            &&& r.cseq == cseq
            &&& r.method == Method::POST
            &&& r.path.len() == 0 && r.content_type.len() == 0 && r.body.len() == 0
            &&& r.headers == seq![("User-Agent"@, "AirPlay/381.13"@), ("X-Apple-HKP"@, "3"@)]
            &&& b.body == body
            &&& b.headers == r.headers.push(("Content-Length"@, decimal(body.len())))
            &&& b.cseq == r.cseq && b.method == r.method && b.path == r.path && b.content_type
                == r.content_type
        }),
{
}

/// A status line is read word by word: the version, the code and the
/// description.
pub proof fn status_line_is_read_by_words(a: Seq<char>, b: Seq<char>, c: Seq<char>)
    requires
        !a.contains(' '),
        !b.contains(' '),
        !c.contains(' '),
    ensures
        ({
            let line = a + seq![' '] + (b + seq![' '] + c);
            &&& word(line, 0) == a
            &&& word(line, 1) == b
            &&& word(line, 2) == c
            &&& word(a, 0) == a
            &&& word(a, 1).len() == 0
        }),
{
    crate::text::first_piece_ends_at_the_separator(a, ' ', b + seq![' '] + c);
    crate::text::first_piece_ends_at_the_separator(b, ' ', c);
    crate::text::first_piece_ends_at_the_separator(c, ' ', c);
    let line = a + seq![' '] + (b + seq![' '] + c);
    assert(split_on(line, ' ') =~= seq![a, b, c]);
}

/// A status line gives back the code and the description that it was written
/// with, for every code of 16 bits.
pub proof fn status_lines_are_read_back(code: u16, description: Seq<char>)
    requires
        !description.contains(' '),
    ensures
        status_of(
            "RTSP/1.0"@ + seq![' '] + (decimal(code as nat) + seq![' '] + description),
        ) == Some((code, description)),
{
    reveal_strlit("RTSP/1.0");
    assert("RTSP/1.0"@.len() == 8);
    let digits = decimal(code as nat);
    decimal_is_read_back(code as nat);
    assert(!digits.contains(' ')) by {
        if digits.contains(' ') {
            let i = choose|i: int| 0 <= i < digits.len() && digits[i] == ' ';
            decimals_hold_only_digits(code as nat, i);
        }
    }
    assert(!"RTSP/1.0"@.contains(' '));
    status_line_is_read_by_words("RTSP/1.0"@, digits, description);
}

/// A header line gives back the name and the value that it was written with.
pub proof fn header_lines_are_read_back(name: Seq<char>, value: Seq<char>)
    requires
        !name.contains(':'),
        trimmed(name) == name,
        trimmed(value) == value,
    ensures
        field_of(name + ": "@ + value + "\r\n"@) == Some((name, value)),
{
    reveal_strlit(": ");
    reveal_strlit("\r\n");
    assert(": "@.len() == 2 && "\r\n"@.len() == 2);
    let line = name + ": "@ + value + "\r\n"@;
    let n = name.len() as int;
    let at = find_from(line, ':', 0);
    lemma_find_from(line, ':', 0);
    assert(line[n] == ':');
    if at < n {
        assert(line[at] == name[at]);
    }
    assert(at == n);
    assert(line.take(n) =~= name);
    let rest = line.skip(n + 1);
    assert(rest =~= seq![' '] + value.push('\r').push('\n'));
    white_space_around_is_lost(' ', value.push('\r').push('\n'));
    white_space_around_is_lost('\n', value.push('\r'));
    white_space_around_is_lost('\r', value);
}

/// Success codes are those that begin with a two, of three digits.
pub proof fn success_begins_with_a_two(code: u16)
    ensures
        succeeded(code) <==> code / 100 == 2,
{
}

} // verus!
