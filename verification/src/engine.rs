//! The protocol engine: fresh request ids, the handshake, and what a message
//! that comes in means to the one call that is waiting.
//!
//! A session has at most one call outstanding. The caller sends the request,
//! then hands every message that arrives to the correlation of that call
//! until it reports the response or a failure.
use vstd::prelude::*;
use crate::codec::{json_parse, parse};
use crate::error::{NahError, NahErrorView, invalid_response};
use crate::json::{Json, JsonView, member};
use crate::protocol::{
    MCPNotification, MCPRequest, MCPResponse, notification_of_json, response_of_json,
    initialize_params, JSONRPC_VERSION,
};
use crate::session::response_error;
use crate::text::{strip_line_end, without_line_end};

verus! {

/// The name under which this client introduces itself.
pub const CLIENT_NAME: &'static str = "nah";

/// The version under which this client introduces itself.
pub const CLIENT_VERSION: &'static str = "0.1";

/// Whether `c` is a digit of lower-case hexadecimal.
pub open spec fn is_lower_hex(c: char) -> bool {
    let u = c as u32;
    (0x30 <= u <= 0x39) || (0x61 <= u <= 0x66)
}

/// Whether `t` has the form in which a random (version 4) UUID is written:
/// 32 digits of lower-case hexadecimal in groups of 8, 4, 4, 4 and 12 with a
/// hyphen between two groups, where the third group begins with `4` and the
/// fourth with `8`, `9`, `a` or `b`.
pub open spec fn is_uuid_v4_text(t: Seq<char>) -> bool {
    &&& t.len() == 36
    &&& forall|i: int|
        0 <= i < 36 ==> if i == 8 || i == 13 || i == 18 || i == 23 {
            #[trigger] t[i] == '-'
        } else {
            is_lower_hex(t[i])
        }
    &&& t[14] == '4'
    &&& (t[19] == '8' || t[19] == '9' || t[19] == 'a' || t[19] == 'b')
}

/// `uuid::Uuid::new_v4`, as the text that its `Display` prints. Which UUID
/// comes is left to chance; that it is a version 4 UUID, and that `Display`
/// writes it in the hyphenated lower-case form, holds of every one. The
/// bytes come from the random source of the operating system, and `new_v4`
/// panics where that source gives none: no argument decides this, so no
/// precondition can rule it out.
#[verifier::external_body]
fn fresh_uuid_text() -> (s: String)
    ensures
        is_uuid_v4_text(s@),
{
    uuid::Uuid::new_v4().to_string()
}

/// A fresh id for a request: a JSON string that holds a random UUID.
pub fn new_request_id() -> (id: Json)
    ensures
        id@ is String,
        is_uuid_v4_text(id@->String_0),
{
    Json::String(fresh_uuid_text())
}

/// The request that opens a session, under a fresh id.
pub fn initialize_request() -> (r: MCPRequest)
    ensures
        r@.jsonrpc == JSONRPC_VERSION@,
        r@.method == "initialize"@,
        r@.id is String,
        is_uuid_v4_text(r@.id->String_0),
        r@.params == Some(initialize_params(CLIENT_NAME@, CLIENT_VERSION@)),
{
    let id = new_request_id();
    MCPRequest::initialize(&id, CLIENT_NAME, CLIENT_VERSION)
}

/// What the response to `initialize` says about the server: the value under
/// `serverInfo` of its result.
pub open spec fn server_info_of_response(server_name: Seq<char>, r: crate::protocol::MCPResponseView) -> Result<
    JsonView,
    NahErrorView,
> {
    match r.result {
        None => Err(response_error(server_name, r)),
        Some(result) => match member(result, "serverInfo"@) {
            Some(info) => Ok(info),
            None => Err(invalid_response(server_name, None)),
        },
    }
}

/// Reads the response to `initialize`, which has to hold the server's info.
pub fn accept_initialize(server_name: &str, response: &MCPResponse) -> (r: Result<Json, NahError>)
    ensures
        match server_info_of_response(server_name@, response@) {
            Ok(info) => r matches Ok(j) && j@ == info,
            Err(e) => r matches Err(x) && x@ == e,
        },
{
    match &response.result {
        None => Err(crate::session::parse_response_error(server_name, response)),
        Some(result) => match result.get("serverInfo") {
            Some(info) => Ok(info.clone()),
            None => Err(NahError::mcp_server_invalid_response(server_name, None)),
        },
    }
}

/// What a message that came in means to the call that is waiting.
#[derive(Debug)]
pub enum Incoming {
    /// The response to the call.
    Response(MCPResponse),
    /// The message carries the call's id but is no response: the call fails.
    Failed(NahError),
    /// A notification from the server; the call keeps waiting.
    Notification(MCPNotification),
    /// Something else, or nothing that can be read; the call keeps waiting.
    Ignored,
}

/// The id of a message, where it has one that is a text.
pub open spec fn message_id(message: JsonView) -> Option<Seq<char>> {
    match member(message, "id"@) {
        Some(JsonView::String(id)) => Some(id),
        _ => None,
    }
}

/// Whether `r` is what `message` means to a call that waits for the id
/// `expected` on the server `server_name`:
/// a message with that id is the response, or a failure where it cannot be
/// read as one; a message with another id is ignored; a message without an
/// id is a notification where it can be read as one, and is ignored
/// otherwise.
pub open spec fn classified(
    server_name: Seq<char>,
    expected: JsonView,
    message: JsonView,
    r: Incoming,
) -> bool {
    match message_id(message) {
        Some(id) => if expected == JsonView::String(id) {
            match response_of_json(message) {
                Some(response) => r matches Incoming::Response(x) && x@ == response,
                None => r matches Incoming::Failed(e) && e@ == invalid_response(server_name, None),
            }
        } else {
            r is Ignored
        },
        None => match notification_of_json(message) {
            Some(notification) => r matches Incoming::Notification(x) && x@ == notification,
            None => r is Ignored,
        },
    }
}

/// The one outstanding request of a session: the id that its response will
/// carry. It lives from the sending of the request to the end of the wait.
#[derive(Debug)]
pub struct PendingCorrelation {
    pub id: Json,
}

impl PendingCorrelation {
    /// The correlation of a request that is about to be sent.
    pub fn new(request: &MCPRequest) -> (p: PendingCorrelation)
        ensures
            p.id@ == request@.id,
    {
        PendingCorrelation { id: request.id.clone() }
    }

    /// Whether the text `id` is the id that this call waits for.
    fn answers(&self, id: &str) -> (r: bool)
        ensures
            r == (self.id@ == JsonView::String(id@)),
    {
        match &self.id {
            Json::String(own) => crate::text::str_eq(own.as_str(), id),
            _ => false,
        }
    }

    /// What a message that came in means to this call.
    pub fn classify(&self, server_name: &str, message: &Json) -> (r: Incoming)
        ensures
            classified(server_name@, self.id@, message@, r),
    {
        let id: Option<&str> = match message.get("id") {
            Some(Json::String(s)) => Some(s.as_str()),
            _ => None,
        };
        match id {
            Some(incoming_id) => {
                if self.answers(incoming_id) {
                    match MCPResponse::from_json(message) {
                        Some(response) => Incoming::Response(response),
                        None => Incoming::Failed(
                            NahError::mcp_server_invalid_response(server_name, None),
                        ),
                    }
                } else {
                    Incoming::Ignored
                }
            },
            None => match MCPNotification::from_json(message) {
                Some(notification) => Incoming::Notification(notification),
                None => Incoming::Ignored,
            },
        }
    }

    /// What a line that came in means to this call. A line that is not JSON
    /// is passed over, and the call keeps waiting.
    pub fn receive_line(&self, server_name: &str, line: &str) -> (r: Incoming)
        ensures
            match json_parse(without_line_end(line@)) {
                Some(message) => classified(server_name@, self.id@, message, r),
                None => r is Ignored,
            },
    {
        match decode_line(line) {
            Some(message) => self.classify(server_name, &message),
            None => Incoming::Ignored,
        }
    }
}

/// Reads the JSON document of one line, with or without the newline at its
/// end; `None` where the line is not JSON.
pub fn decode_line(line: &str) -> (r: Option<Json>)
    ensures
        r is Some <==> json_parse(without_line_end(line@)) is Some,
        r matches Some(j) ==> json_parse(without_line_end(line@)) == Some(j@),
{
    let text = strip_line_end(line);
    match parse(text.as_str()) {
        Ok(j) => Some(j),
        Err(_) => None,
    }
}

} // verus!
