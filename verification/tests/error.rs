use nah::error::{Error, ErrorKind, NahError};

#[test]
fn every_error_has_its_code_and_message() {
    let cases: Vec<(NahError, i32, &str)> = vec![
        (NahError::io_error("disk", None), 1, "IO Error: disk"),
        (NahError::invalid_value("x", None), 2, "Invalid value error: x"),
        (
            NahError::mcp_server_communication_error("s", None),
            3,
            "MCP server communication error with s",
        ),
        (
            NahError::mcp_server_process_launch_error("s", None),
            4,
            "Failed to launch MCP server process: s",
        ),
        (NahError::mcp_server_error("s", "boom", None), 5, "Error from MCP Server s: boom"),
        (
            NahError::mcp_server_invalid_response("s", None),
            6,
            "Received invalid response from MCP Server s",
        ),
        (
            NahError::received_invalid_json_schema("bad", None),
            7,
            "Received invalid JSON Schema: bad",
        ),
        (NahError::editor_error("vi", None), 8, "Failed on running editor: vi"),
        (
            NahError::mcp_server_timeout("s", None),
            9,
            "Timeout when communicating with MCP server s",
        ),
        (NahError::invalid_argument_error("a", None), 10, "Failed to load arguments: a"),
        (NahError::model_error("m", "oops", None), 101, "Error from model m: oops"),
        (NahError::model_invalid_response("m", None), 102, "Invalid response from model: m"),
        (NahError::user_cancel_request(), 201, "Request was cancelled by the user."),
    ];
    for (e, code, message) in cases {
        assert_eq!(e.code, code);
        assert_eq!(e.message, message);
        assert!(e.source.is_none());
    }
}

#[test]
fn an_error_is_shown_with_code_message_and_cause() {
    let e = NahError::io_error("disk", None);
    assert_eq!(e.to_string(), "NahError 1: IO Error: disk");
    let e = NahError::model_error("m", "oops", Some("eof".to_owned()));
    assert_eq!(e.to_string(), "NahError 101: Error from model m: oops, source: eof");
    let e = NahError { code: -12, message: "m".to_owned(), source: None };
    assert_eq!(e.to_string(), "NahError -12: m");
    let e = NahError { code: i32::MIN, message: "m".to_owned(), source: None };
    assert_eq!(e.to_string(), format!("NahError {}: m", i32::MIN));
}

#[test]
fn only_a_cancelled_request_is_a_user_cancel() {
    assert!(NahError::user_cancel_request().is_user_cancel());
    assert!(!NahError::io_error("x", None).is_user_cancel());
}

#[test]
fn a_model_endpoint_error_is_shown_with_kind_and_message() {
    let e = Error {
        kind: ErrorKind::ModelServerError,
        message: Some("HTTP status 500".to_owned()),
        cause: None,
    };
    assert_eq!(e.to_string(), "Model server error: HTTP status 500");
    let e = Error { kind: ErrorKind::NetworkError, message: None, cause: None };
    assert_eq!(e.to_string(), "Network error: None");
    assert_eq!(ErrorKind::NetworkError.to_string(), "Network error");
}
