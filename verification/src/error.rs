//! The errors that the client reports, each with a numeric code and a
//! message, and the errors of the chat completion endpoint.
use vstd::prelude::*;
use crate::text::{concat, concat3, i64_to_string, opt_text, signed_decimal};

verus! {

/// An error of the client: a code, a message and, where another failure
/// caused it, the text of that failure.
#[derive(Debug)]
pub struct NahError {
    pub code: i32,
    pub message: String,
    pub source: Option<String>,
}

pub ghost struct NahErrorView {
    pub code: int,
    pub message: Seq<char>,
    pub source: Option<Seq<char>>,
}

impl View for NahError {
    type V = NahErrorView;

    open spec fn view(&self) -> NahErrorView {
        NahErrorView { code: self.code as int, message: self.message@, source: opt_text(self.source) }
    }
}

/// What `NahError::io_error` makes.
pub open spec fn io_error(message: Seq<char>, source: Option<Seq<char>>) -> NahErrorView {
    NahErrorView { code: 1, message: "IO Error: "@ + message, source }
}

/// What `NahError::mcp_server_communication_error` makes.
pub open spec fn communication_error(server_name: Seq<char>, source: Option<Seq<char>>) -> NahErrorView {
    NahErrorView { code: 3, message: "MCP server communication error with "@ + server_name, source }
}

/// What `NahError::mcp_server_error` makes.
pub open spec fn server_error(server_name: Seq<char>, message: Seq<char>) -> NahErrorView {
    NahErrorView {
        code: 5,
        message: "Error from MCP Server "@ + server_name + ": "@ + message,
        source: None,
    }
}

/// What `NahError::mcp_server_invalid_response` makes.
pub open spec fn invalid_response(server_name: Seq<char>, source: Option<Seq<char>>) -> NahErrorView {
    NahErrorView {
        code: 6,
        message: "Received invalid response from MCP Server "@ + server_name,
        source,
    }
}

/// What `NahError::invalid_value` makes.
pub open spec fn invalid_value(message: Seq<char>) -> NahErrorView {
    NahErrorView { code: 2, message: "Invalid value error: "@ + message, source: None }
}

/// What `NahError::invalid_argument_error` makes.
pub open spec fn invalid_argument(message: Seq<char>, source: Option<Seq<char>>) -> NahErrorView {
    NahErrorView { code: 10, message: "Failed to load arguments: "@ + message, source }
}

/// What `NahError::model_invalid_response` makes.
pub open spec fn model_invalid_response(model_name: Seq<char>) -> NahErrorView {
    NahErrorView {
        code: 102,
        message: "Invalid response from model: "@ + model_name,
        source: None,
    }
}

/// What `NahError::user_cancel_request` makes.
pub open spec fn user_cancel() -> NahErrorView {
    NahErrorView {
        code: USER_CANCEL_CODE as int,
        message: "Request was cancelled by the user."@,
        source: None,
    }
}

/// The code that marks a declined confirmation.
pub const USER_CANCEL_CODE: i32 = 201;

/// The code that marks a non-success status of the completion endpoint.
pub const MODEL_SERVER_ERROR_CODE: i32 = 101;

impl NahError {
    /// A local file or process failed.
    pub fn io_error(message: &str, source: Option<String>) -> (e: NahError)
        ensures
            e@ == (NahErrorView {
                code: 1,
                message: "IO Error: "@ + message@,
                source: opt_text(source),
            }),
    {
        NahError { code: 1, message: concat("IO Error: ", message), source }
    }

    /// A requested name or URI is not there.
    pub fn invalid_value(message: &str, source: Option<String>) -> (e: NahError)
        ensures
            e@ == (NahErrorView {
                code: 2,
                message: "Invalid value error: "@ + message@,
                source: opt_text(source),
            }),
    {
        NahError { code: 2, message: concat("Invalid value error: ", message), source }
    }

    /// Sending to or receiving from a server failed.
    pub fn mcp_server_communication_error(server_name: &str, source: Option<String>) -> (e:
        NahError)
        ensures
            e@ == (NahErrorView {
                code: 3,
                message: "MCP server communication error with "@ + server_name@,
                source: opt_text(source),
            }),
    {
        NahError {
            code: 3,
            message: concat("MCP server communication error with ", server_name),
            source,
        }
    }

    /// A server process could not be started.
    pub fn mcp_server_process_launch_error(server_name: &str, source: Option<String>) -> (e:
        NahError)
        ensures
            e@ == (NahErrorView {
                code: 4,
                message: "Failed to launch MCP server process: "@ + server_name@,
                source: opt_text(source),
            }),
    {
        NahError {
            code: 4,
            message: concat("Failed to launch MCP server process: ", server_name),
            source,
        }
    }

    /// A server answered with an error, or with neither a result nor an error.
    pub fn mcp_server_error(server_name: &str, message: &str, source: Option<String>) -> (e:
        NahError)
        ensures
            e@ == (NahErrorView {
                code: 5,
                message: "Error from MCP Server "@ + server_name@ + ": "@ + message@,
                source: opt_text(source),
            }),
    {
        let head = concat3("Error from MCP Server ", server_name, ": ");
        NahError { code: 5, message: concat(head.as_str(), message), source }
    }

    /// A server's answer does not have the expected shape.
    pub fn mcp_server_invalid_response(server_name: &str, source: Option<String>) -> (e: NahError)
        ensures
            e@ == (NahErrorView {
                code: 6,
                message: "Received invalid response from MCP Server "@ + server_name@,
                source: opt_text(source),
            }),
    {
        NahError {
            code: 6,
            message: concat("Received invalid response from MCP Server ", server_name),
            source,
        }
    }

    /// A tool's input schema cannot be understood.
    pub fn received_invalid_json_schema(message: &str, source: Option<String>) -> (e: NahError)
        ensures
            e@ == (NahErrorView {
                code: 7,
                message: "Received invalid JSON Schema: "@ + message@,
                source: opt_text(source),
            }),
    {
        NahError { code: 7, message: concat("Received invalid JSON Schema: ", message), source }
    }

    /// The text editor could not be run, or failed.
    pub fn editor_error(message: &str, source: Option<String>) -> (e: NahError)
        ensures
            e@ == (NahErrorView {
                code: 8,
                message: "Failed on running editor: "@ + message@,
                source: opt_text(source),
            }),
    {
        NahError { code: 8, message: concat("Failed on running editor: ", message), source }
    }

    /// No matching answer came within the deadline.
    pub fn mcp_server_timeout(server_name: &str, source: Option<String>) -> (e: NahError)
        ensures
            e@ == (NahErrorView {
                code: 9,
                message: "Timeout when communicating with MCP server "@ + server_name@,
                source: opt_text(source),
            }),
    {
        NahError {
            code: 9,
            message: concat("Timeout when communicating with MCP server ", server_name),
            source,
        }
    }

    /// Arguments are not valid structured data.
    pub fn invalid_argument_error(message: &str, source: Option<String>) -> (e: NahError)
        ensures
            e@ == (NahErrorView {
                code: 10,
                message: "Failed to load arguments: "@ + message@,
                source: opt_text(source),
            }),
    {
        NahError { code: 10, message: concat("Failed to load arguments: ", message), source }
    }

    /// The completion endpoint answered with an error.
    pub fn model_error(model_name: &str, message: &str, source: Option<String>) -> (e: NahError)
        ensures
            e@ == (NahErrorView {
                code: 101,
                message: "Error from model "@ + model_name@ + ": "@ + message@,
                source: opt_text(source),
            }),
    {
        let head = concat3("Error from model ", model_name, ": ");
        NahError { code: 101, message: concat(head.as_str(), message), source }
    }

    /// The completion endpoint's answer cannot be used.
    pub fn model_invalid_response(model_name: &str, source: Option<String>) -> (e: NahError)
        ensures
            e@ == (NahErrorView {
                code: 102,
                message: "Invalid response from model: "@ + model_name@,
                source: opt_text(source),
            }),
    {
        NahError { code: 102, message: concat("Invalid response from model: ", model_name), source }
    }

    /// The user declined a confirmation.
    pub fn user_cancel_request() -> (e: NahError)
        ensures
            e@ == (NahErrorView {
                code: USER_CANCEL_CODE as int,
                message: "Request was cancelled by the user."@,
                source: None,
            }),
    {
        NahError {
            code: USER_CANCEL_CODE,
            message: "Request was cancelled by the user.".to_owned(),
            source: None,
        }
    }

    /// Whether this error marks a non-success status of the completion
    /// endpoint, which ends a turn and is not tried again.
    pub fn is_model_server_error(&self) -> (r: bool)
        ensures
            r == (self@.code == MODEL_SERVER_ERROR_CODE),
    {
        self.code == MODEL_SERVER_ERROR_CODE
    }

    /// Whether this error marks a declined confirmation, which ends a turn
    /// quietly.
    pub fn is_user_cancel(&self) -> (r: bool)
        ensures
            r == (self@.code == USER_CANCEL_CODE),
    {
        self.code == USER_CANCEL_CODE
    }

    /// The line that shows this error to the user.
    pub open spec fn rendered(e: NahErrorView) -> Seq<char> {
        let head = "NahError "@ + signed_decimal(e.code) + ": "@ + e.message;
        match e.source {
            Some(s) => head + ", source: "@ + s,
            None => head,
        }
    }

    /// The line that shows this error to the user: its code and message, and
    /// its cause where it has one.
    pub fn to_string(&self) -> (s: String)
        ensures
            s@ == Self::rendered(self@),
    {
        let code = i64_to_string(self.code as i64);
        let mut s = concat3("NahError ", code.as_str(), ": ");
        s.append(self.message.as_str());
        match &self.source {
            Some(cause) => {
                s.append(", source: ");
                s.append(cause.as_str());
            },
            None => {},
        }
        s
    }
}

/// The kinds of failure of the chat completion endpoint.
#[derive(Debug, Clone, Copy, PartialEq, Eq, Structural)]
pub enum ErrorKind {
    NetworkError,
    ModelServerError,
}

impl ErrorKind {
    pub open spec fn label(self) -> Seq<char> {
        match self {
            ErrorKind::NetworkError => "Network error"@,
            ErrorKind::ModelServerError => "Model server error"@,
        }
    }

    /// The name of the kind, as shown to the user.
    pub fn to_string(&self) -> (s: String)
        ensures
            s@ == self.label(),
    {
        match self {
            ErrorKind::NetworkError => "Network error".to_owned(),
            ErrorKind::ModelServerError => "Model server error".to_owned(),
        }
    }
}

/// A failure of the chat completion endpoint.
#[derive(Debug)]
pub struct Error {
    pub kind: ErrorKind,
    pub message: Option<String>,
    pub cause: Option<String>,
}

impl Error {
    pub open spec fn rendered(kind: ErrorKind, message: Option<Seq<char>>) -> Seq<char> {
        kind.label() + ": "@ + match message {
            Some(m) => m,
            None => "None"@,
        }
    }

    /// The line that shows this error to the user: its kind and its message,
    /// or `None` where it has no message.
    pub fn to_string(&self) -> (s: String)
        ensures
            s@ == Self::rendered(self.kind, opt_text(self.message)),
    {
        let kind = self.kind.to_string();
        match &self.message {
            Some(m) => concat3(kind.as_str(), ": ", m.as_str()),
            None => concat3(kind.as_str(), ": ", "None"),
        }
    }
}

} // verus!
