//! What the two transports compute around their I/O: the line framing of a
//! local server process, and the headers, the session affinity and the two
//! response encodings of an HTTP server.
use vstd::prelude::*;
use crate::codec::{json_parse, json_text, parse, stored, to_text};
use crate::error::{NahError, NahErrorView, communication_error, invalid_response, server_error};
use crate::json::Json;
use crate::protocol::{MCPResponse, response_of_json};
use crate::text::{
    concat, matches_at, opt_text, single_line, split, split_from, split_text, str_eq,
    strip_prefix, texts, without_line_end,
};
use crate::MCP_PROTOCOL_VERSION;

verus! {

/// The line that carries a message to a local server: its compact JSON text
/// and a newline. The newline at the end is the only one in it.
pub fn frame_line(message: &Json) -> (line: String)
    ensures
        line@ == json_text(stored(message@)) + "\n"@,
        line@.len() > 0,
        line@.last() == '\n',
        single_line(line@.drop_last()),
        without_line_end(line@) == json_text(stored(message@)),
{
    let mut line = to_text(message);
    proof {
        reveal_strlit("\n");
        assert((line@ + "\n"@).drop_last() =~= line@);
    }
    line.append("\n");
    line
}

/// The header that carries the protocol version.
pub const PROTOCOL_VERSION_HEADER: &'static str = "MCP-Protocol-Version";

/// The header that carries the session id.
pub const SESSION_ID_HEADER: &'static str = "Mcp-Session-Id";

/// The content type of a plain JSON body.
pub const JSON_CONTENT_TYPE: &'static str = "application/json";

/// The content type of a body of server-sent events.
pub const EVENT_STREAM_CONTENT_TYPE: &'static str = "text/event-stream";

/// What begins the line of an event that carries data.
pub const DATA_PREFIX: &'static str = "data: ";

/// The headers as pairs of texts.
pub open spec fn header_views(headers: Seq<(String, String)>) -> Seq<(Seq<char>, Seq<char>)> {
    Seq::new(headers.len(), |i: int| (headers[i].0@, headers[i].1@))
}

/// The session header, where a session id is held.
pub open spec fn session_header(session_id: Option<Seq<char>>) -> Seq<(Seq<char>, Seq<char>)> {
    match session_id {
        Some(id) => seq![(SESSION_ID_HEADER@, id)],
        None => Seq::empty(),
    }
}

/// The headers of a request that carries a protocol message: the configured
/// ones, then the content type, what is accepted back, `Connection: close`,
/// the protocol version and, once a session is established, its id.
pub open spec fn request_header_views(
    configured: Seq<(Seq<char>, Seq<char>)>,
    session_id: Option<Seq<char>>,
) -> Seq<(Seq<char>, Seq<char>)> {
    configured + seq![
        ("Content-Type"@, JSON_CONTENT_TYPE@),
        ("Accept"@, "application/json,text/event-stream"@),
        ("Connection"@, "close"@),
        (PROTOCOL_VERSION_HEADER@, MCP_PROTOCOL_VERSION@),
    ] + session_header(session_id)
}

/// The headers of the request that ends a session: the configured ones, the
/// protocol version and the session id.
pub open spec fn termination_header_views(
    configured: Seq<(Seq<char>, Seq<char>)>,
    session_id: Seq<char>,
) -> Seq<(Seq<char>, Seq<char>)> {
    configured + seq![(PROTOCOL_VERSION_HEADER@, MCP_PROTOCOL_VERSION@), (SESSION_ID_HEADER@, session_id)]
}

fn copy_headers(configured: &Vec<(String, String)>) -> (r: Vec<(String, String)>)
    ensures
        header_views(r@) == header_views(configured@),
{
    let mut out: Vec<(String, String)> = Vec::new();
    let mut i: usize = 0;
    while i < configured.len()
        invariant
            i <= configured.len(),
            out.len() == i,
            forall|k: int| 0 <= k < i ==> out@[k].0@ == configured@[k].0@ && out@[k].1@ == configured@[k].1@,
        decreases configured.len() - i,
    {
        out.push((configured[i].0.clone(), configured[i].1.clone()));
        i = i + 1;
    }
    assert(header_views(out@) =~= header_views(configured@));
    out
}

fn push_header(headers: &mut Vec<(String, String)>, name: &str, value: &str)
    ensures
        header_views(final(headers)@) == header_views(old(headers)@).push((name@, value@)),
{
    headers.push((name.to_owned(), value.to_owned()));
    assert(header_views(headers@) =~= header_views(old(headers)@).push((name@, value@)));
}

/// The state that an HTTP transport keeps between exchanges: the session id
/// that the server issued, if it issued one.
#[derive(Debug)]
pub struct HttpSession {
    pub session_id: Option<String>,
}

impl HttpSession {
    /// The state before the first exchange: no session.
    pub fn new() -> (s: HttpSession)
        ensures
            s.session_id is None,
    {
        HttpSession { session_id: None }
    }

    /// The headers of a request that carries a protocol message.
    pub fn request_headers(&self, configured: &Vec<(String, String)>) -> (r: Vec<(String, String)>)
        ensures
            header_views(r@) == request_header_views(
                header_views(configured@),
                opt_text(self.session_id),
            ),
    {
        let mut headers = copy_headers(configured);
        push_header(&mut headers, "Content-Type", JSON_CONTENT_TYPE);
        push_header(&mut headers, "Accept", "application/json,text/event-stream");
        push_header(&mut headers, "Connection", "close");
        push_header(&mut headers, PROTOCOL_VERSION_HEADER, MCP_PROTOCOL_VERSION);
        match &self.session_id {
            Some(id) => {
                push_header(&mut headers, SESSION_ID_HEADER, id.as_str());
            },
            None => {},
        }
        assert(header_views(headers@) =~= request_header_views(
            header_views(configured@),
            opt_text(self.session_id),
        ));
        headers
    }

    /// Takes the session header of a response: the first id that a server
    /// issues is adopted, and kept whatever comes later. Returns whether an
    /// id was adopted now.
    pub fn adopt_session_id(&mut self, received: Option<String>) -> (adopted: bool)
        ensures
            adopted == (old(self).session_id is None && received is Some),
            adopted ==> final(self).session_id == received,
            !adopted ==> final(self).session_id == old(self).session_id,
    {
        if self.session_id.is_none() && received.is_some() {
            self.session_id = received;
            true
        } else {
            false
        }
    }

    /// The headers of the request that ends the session; `None` where no
    /// session was established, so that closing does nothing.
    pub fn termination_headers(&self, configured: &Vec<(String, String)>) -> (r: Option<
        Vec<(String, String)>,
    >)
        ensures
            match opt_text(self.session_id) {
                Some(id) => r matches Some(h) && header_views(h@) == termination_header_views(
                    header_views(configured@),
                    id,
                ),
                None => r is None,
            },
    {
        match &self.session_id {
            None => None,
            Some(id) => {
                let mut headers = copy_headers(configured);
                push_header(&mut headers, PROTOCOL_VERSION_HEADER, MCP_PROTOCOL_VERSION);
                push_header(&mut headers, SESSION_ID_HEADER, id.as_str());
                assert(header_views(headers@) =~= termination_header_views(
                    header_views(configured@),
                    id@,
                ));
                Some(headers)
            },
        }
    }
}

/// Looks at the status with which a server answered a notification: the
/// handshake has failed unless the status says success.
pub fn check_notification_status(server_name: &str, status: u16) -> (r: Result<(), NahError>)
    ensures
        crate::chat::is_success(status) ==> r is Ok,
        !crate::chat::is_success(status) ==> (r matches Err(e) && e@ == server_error(
            server_name@,
            "Initialization is not success."@,
        )),
{
    if 200 <= status && status < 300 {
        Ok(())
    } else {
        Err(NahError::mcp_server_error(server_name, "Initialization is not success.", None))
    }
}

/// The first of the lines that begins with `data: `, if one does.
pub open spec fn first_data_line(lines: Seq<Seq<char>>) -> Option<Seq<char>>
    decreases lines.len(),
{
    if lines.len() == 0 {
        None
    } else if DATA_PREFIX@.is_prefix_of(lines[0]) {
        Some(lines[0])
    } else {
        first_data_line(lines.drop_first())
    }
}

/// The payload of the first event of a body of server-sent events: what
/// follows the prefix on the first line that begins with `data: `. The prefix
/// is taken off once. Later events are ignored.
pub open spec fn event_payload(body: Seq<char>) -> Option<Seq<char>> {
    match first_data_line(split(body, "\n"@)) {
        Some(line) => Some(line.skip(DATA_PREFIX@.len() as int)),
        None => None,
    }
}

/// The payload of the first event of a body of server-sent events.
pub fn read_event_payload(body: &str) -> (r: Option<String>)
    ensures
        opt_text(r) == event_payload(body@),
{
    let lines = split_text(body, "\n");
    let ghost all = texts(lines@);
    let mut i: usize = 0;
    assert(all.skip(0) =~= all);
    while i < lines.len()
        invariant
            i <= lines.len(),
            all == texts(lines@),
            all == split(body@, "\n"@),
            first_data_line(all) == first_data_line(all.skip(i as int)),
        decreases lines.len() - i,
    {
        proof {
            assert(all.skip(i as int).drop_first() =~= all.skip(i + 1));
            assert(all.skip(i as int)[0] == lines@[i as int]@);
        }
        match strip_prefix(lines[i].as_str(), DATA_PREFIX) {
            Some(payload) => {
                return Some(payload);
            },
            None => {},
        }
        i = i + 1;
    }
    None
}

/// The response that a JSON text is, or the failure to read one.
pub open spec fn response_of_text(server_name: Seq<char>, text: Seq<char>, r: Result<
    MCPResponse,
    NahError,
>) -> bool {
    match json_parse(text) {
        Some(j) => match response_of_json(j) {
            Some(response) => r matches Ok(x) && x@ == response,
            None => r matches Err(e) && e@ == invalid_response(server_name, None),
        },
        None => r matches Err(e) && e@.code == 6 && e@.message == invalid_response(
            server_name,
            None,
        ).message && e@.source is Some,
    }
}

/// Reads a response from its JSON text.
pub fn parse_response(server_name: &str, text: &str) -> (r: Result<MCPResponse, NahError>)
    ensures
        response_of_text(server_name@, text@, r),
{
    match parse(text) {
        Ok(j) => match MCPResponse::from_json(&j) {
            Some(response) => Ok(response),
            None => Err(NahError::mcp_server_invalid_response(server_name, None)),
        },
        Err(cause) => Err(NahError::mcp_server_invalid_response(server_name, Some(cause.message))),
    }
}

/// How the body of an HTTP response is encoded.
#[derive(Clone, Copy, Debug, PartialEq, Eq, Structural)]
pub enum BodyEncoding {
    /// The body is one JSON document.
    Json,
    /// The body is a sequence of server-sent events.
    EventStream,
}

/// The encoding that a declared content type stands for, if it is one of
/// the two that a server may answer in.
pub open spec fn encoding_of(content_type: Option<Seq<char>>) -> Option<BodyEncoding> {
    match content_type {
        Some(t) => if t == JSON_CONTENT_TYPE@ {
            Some(BodyEncoding::Json)
        } else if t == EVENT_STREAM_CONTENT_TYPE@ {
            Some(BodyEncoding::EventStream)
        } else {
            None
        },
        None => None,
    }
}

/// The cause that is reported for a content type that stands for no
/// encoding: it names the type, or says that none was declared.
pub open spec fn content_type_cause(content_type: Option<Seq<char>>) -> Seq<char> {
    match content_type {
        Some(t) => "Unknown content type for MCP response: "@ + t,
        None => "Missing content type for MCP response"@,
    }
}

/// The failure of the exchange on a content type that stands for no
/// encoding: a communication error whose source names the type.
pub open spec fn content_type_error(
    server_name: Seq<char>,
    content_type: Option<Seq<char>>,
) -> NahErrorView {
    communication_error(server_name, Some(content_type_cause(content_type)))
}

/// Judges the content type that a response declares, before anything of its
/// body is read: the encoding to read the body in, or the failure of the
/// exchange where the type is another one or missing.
pub fn judge_content_type(server_name: &str, content_type: Option<&str>) -> (r: Result<
    BodyEncoding,
    NahError,
>)
    ensures
        match encoding_of(opt_str_view(content_type)) {
            Some(encoding) => r == Ok::<BodyEncoding, NahError>(encoding),
            None => r matches Err(e) && e@ == content_type_error(
                server_name@,
                opt_str_view(content_type),
            ),
        },
{
    match content_type {
        None => {
            let cause = "Missing content type for MCP response".to_owned();
            Err(NahError::mcp_server_communication_error(server_name, Some(cause)))
        },
        Some(t) => {
            if str_eq(t, JSON_CONTENT_TYPE) {
                Ok(BodyEncoding::Json)
            } else if str_eq(t, EVENT_STREAM_CONTENT_TYPE) {
                Ok(BodyEncoding::EventStream)
            } else {
                let cause = concat("Unknown content type for MCP response: ", t);
                Err(NahError::mcp_server_communication_error(server_name, Some(cause)))
            }
        },
    }
}

/// The text of an optional string slice.
pub open spec fn opt_str_view(s: Option<&str>) -> Option<Seq<char>> {
    match s {
        Some(t) => Some(t@),
        None => None,
    }
}

/// Whether `r` is what a body decodes to in the given encoding: a JSON body
/// is read whole; of a body of server-sent events the payload of the first
/// event is read.
pub open spec fn body_decoded(
    server_name: Seq<char>,
    encoding: BodyEncoding,
    body: Seq<char>,
    r: Result<MCPResponse, NahError>,
) -> bool {
    match encoding {
        BodyEncoding::Json => response_of_text(server_name, body, r),
        BodyEncoding::EventStream => match event_payload(body) {
            Some(payload) => response_of_text(server_name, payload, r),
            None => r matches Err(e) && e@ == invalid_response(server_name, None),
        },
    }
}

/// Decodes the body of an HTTP response in the encoding that its content
/// type was judged to stand for.
pub fn decode_body(server_name: &str, encoding: BodyEncoding, body: &str) -> (r: Result<
    MCPResponse,
    NahError,
>)
    ensures
        body_decoded(server_name@, encoding, body@, r),
{
    match encoding {
        BodyEncoding::Json => parse_response(server_name, body),
        BodyEncoding::EventStream => match read_event_payload(body) {
            Some(payload) => parse_response(server_name, payload.as_str()),
            None => Err(NahError::mcp_server_invalid_response(server_name, None)),
        },
    }
}

/// Whether `r` is what an HTTP response decodes to, given the content type
/// that it declares: in one of the two encodings the body is decoded; any
/// other content type, or none, fails the exchange whatever the body holds.
pub open spec fn decoded(
    server_name: Seq<char>,
    content_type: Option<Seq<char>>,
    body: Seq<char>,
    r: Result<MCPResponse, NahError>,
) -> bool {
    match encoding_of(content_type) {
        Some(encoding) => body_decoded(server_name, encoding, body, r),
        None => r matches Err(e) && e@ == content_type_error(server_name, content_type),
    }
}

/// Decodes an HTTP response whose body has been read: the content type is
/// judged first, and the body is looked at only in one of the two encodings.
pub fn decode_response(server_name: &str, content_type: Option<&str>, body: &str) -> (r: Result<
    MCPResponse,
    NahError,
>)
    ensures
        decoded(server_name@, opt_str_view(content_type), body@, r),
{
    match judge_content_type(server_name, content_type) {
        Ok(encoding) => decode_body(server_name, encoding, body),
        Err(e) => Err(e),
    }
}

/// While no newline is met, the search for the end of a line moves on.
proof fn lemma_split_skips(s: Seq<char>, at: int, end: int)
    requires
        0 <= at <= end < s.len(),
        forall|i: int| at <= i < end ==> s[i] != '\n',
    ensures
        split_from(s, "\n"@, 0, at) == split_from(s, "\n"@, 0, end),
    decreases end - at,
{
    reveal_strlit("\n");
    if at < end {
        assert(!matches_at(s, "\n"@, at)) by {
            if matches_at(s, "\n"@, at) {
                assert(s.subrange(at, at + 1)[0] == "\n"@[0]);
            }
        }
        lemma_split_skips(s, at + 1, end);
    }
}

/// A body of server-sent events whose first line is `data: ` and a payload
/// has that payload as the payload of its first event, as long as the
/// payload has no newline in it.
pub proof fn lemma_event_payload(payload: Seq<char>, rest: Seq<char>)
    requires
        single_line(payload),
    ensures
        event_payload(DATA_PREFIX@ + payload + "\n"@ + rest) == Some(payload),
{
    reveal_strlit("data: ");
    reveal_strlit("\n");
    let line = DATA_PREFIX@ + payload;
    let body = line + "\n"@ + rest;
    let end = line.len() as int;
    assert(DATA_PREFIX@.len() == 6);
    assert forall|i: int| 0 <= i < end implies body[i] != '\n' by {
        if i >= 6 {
            assert(body[i] == payload[i - 6]);
        }
    }
    assert(body[end] == '\n');
    lemma_split_skips(body, 0, end);
    assert(matches_at(body, "\n"@, end)) by {
        assert(body.subrange(end, end + 1) =~= "\n"@);
    }
    assert(body.subrange(0, end) =~= line);
    let lines = split(body, "\n"@);
    assert(lines[0] == line);
    assert(DATA_PREFIX@.is_prefix_of(line)) by {
        assert(line.subrange(0, 6) =~= DATA_PREFIX@);
    }
    assert(line.skip(6) =~= payload);
}

/// A response sent as the one event of an event stream decodes exactly as
/// the same payload sent as a plain JSON body does.
pub proof fn lemma_event_stream_decodes_as_json(
    server_name: Seq<char>,
    payload: Seq<char>,
    r: Result<MCPResponse, NahError>,
)
    requires
        single_line(payload),
    ensures
        decoded(
            server_name,
            Some(EVENT_STREAM_CONTENT_TYPE@),
            DATA_PREFIX@ + payload + "\n\n"@,
            r,
        ) == decoded(server_name, Some(JSON_CONTENT_TYPE@), payload, r),
{
    reveal_strlit("\n");
    reveal_strlit("\n\n");
    reveal_strlit("application/json");
    reveal_strlit("text/event-stream");
    assert("\n\n"@ =~= "\n"@ + "\n"@);
    assert(DATA_PREFIX@ + payload + "\n\n"@ =~= DATA_PREFIX@ + payload + "\n"@ + "\n"@);
    lemma_event_payload(payload, "\n"@);
    assert(EVENT_STREAM_CONTENT_TYPE@ != JSON_CONTENT_TYPE@) by {
        assert("application/json"@.len() == 16);
        assert("text/event-stream"@.len() == 17);
    }
}

/// An unknown or missing content type fails the exchange with a
/// communication error, whatever the body holds.
pub proof fn lemma_unknown_content_type_fails(
    server_name: Seq<char>,
    content_type: Option<Seq<char>>,
    body: Seq<char>,
    r: Result<MCPResponse, NahError>,
)
    requires
        encoding_of(content_type) is None,
        decoded(server_name, content_type, body, r),
    ensures
        r is Err,
        r->Err_0@.code == 3,
        r->Err_0@.source == Some(content_type_cause(content_type)),
{
}

} // verus!
