use nah::codec::to_text;
use nah::json::Json;
use nah::protocol::MCPRequest;
use nah::transport::{
    decode_body, decode_response, frame_line, judge_content_type, read_event_payload,
    BodyEncoding, HttpSession,
};

#[test]
fn an_event_stream_body_decodes_as_the_same_json_body_does() {
    let sse = decode_response(
        "srv",
        Some("text/event-stream"),
        "data: {\"jsonrpc\":\"2.0\",\"id\":\"5\",\"result\":{}}\n\n",
    )
    .unwrap();
    let plain = decode_response(
        "srv",
        Some("application/json"),
        "{\"jsonrpc\":\"2.0\",\"id\":\"5\",\"result\":{}}",
    )
    .unwrap();
    assert_eq!(sse.id.as_str(), Some("5"));
    assert_eq!(to_text(&sse.to_json()), to_text(&plain.to_json()));
    assert_eq!(to_text(&sse.to_json()), "{\"id\":\"5\",\"jsonrpc\":\"2.0\",\"result\":{}}");
}

#[test]
fn only_the_first_event_of_a_stream_counts() {
    let body = ": comment\nevent: message\ndata: {\"jsonrpc\":\"2.0\",\"id\":\"1\",\"result\":1}\n\ndata: {\"jsonrpc\":\"2.0\",\"id\":\"2\",\"result\":2}\n\n";
    let r = decode_response("srv", Some("text/event-stream"), body).unwrap();
    assert_eq!(r.id.as_str(), Some("1"));
    assert_eq!(
        read_event_payload(body),
        Some("{\"jsonrpc\":\"2.0\",\"id\":\"1\",\"result\":1}".to_owned())
    );
}

#[test]
fn an_event_stream_without_data_is_an_invalid_response() {
    let e = decode_response("srv", Some("text/event-stream"), "event: ping\n\n").unwrap_err();
    assert_eq!(e.code, 6);
    assert_eq!(e.message, "Received invalid response from MCP Server srv");
    assert!(e.source.is_none());
    assert_eq!(read_event_payload("data:x\n"), None);
}

#[test]
fn another_content_type_is_an_error_that_names_it() {
    let e = decode_response("srv", Some("text/html"), "<html>").unwrap_err();
    assert_eq!(e.code, 3);
    assert_eq!(e.message, "MCP server communication error with srv");
    assert_eq!(
        e.source,
        Some("Unknown content type for MCP response: text/html".to_owned())
    );
    let e = decode_response("srv", Some("application/json; charset=utf-8"), "{}").unwrap_err();
    assert_eq!(e.code, 3);
    let body = "{\"jsonrpc\":\"2.0\",\"id\":\"5\",\"result\":{}}";
    let e = decode_response("srv", Some("text/plain"), body).unwrap_err();
    assert_eq!(e.code, 3);
    assert_eq!(
        e.source,
        Some("Unknown content type for MCP response: text/plain".to_owned())
    );
}

#[test]
fn the_content_type_is_judged_before_the_body_is_looked_at() {
    assert_eq!(judge_content_type("srv", Some("application/json")).unwrap(), BodyEncoding::Json);
    assert_eq!(
        judge_content_type("srv", Some("text/event-stream")).unwrap(),
        BodyEncoding::EventStream
    );
    let e = judge_content_type("srv", Some("text/html")).unwrap_err();
    assert_eq!(e.code, 3);
    let e = judge_content_type("srv", None).unwrap_err();
    assert_eq!(e.code, 3);
    let body = "{\"jsonrpc\":\"2.0\",\"id\":\"5\",\"result\":{}}";
    let r = decode_body("srv", BodyEncoding::Json, body).unwrap();
    assert_eq!(r.id.as_str(), Some("5"));
    let events = "data: {\"jsonrpc\":\"2.0\",\"id\":\"5\",\"result\":{}}\n\n";
    let r = decode_body("srv", BodyEncoding::EventStream, events).unwrap();
    assert_eq!(r.id.as_str(), Some("5"));
    let e = decode_body("srv", BodyEncoding::EventStream, body).unwrap_err();
    assert_eq!(e.code, 6);
}

#[test]
fn the_data_prefix_is_taken_off_once() {
    assert_eq!(read_event_payload("data: data: {}\n\n"), Some("data: {}".to_owned()));
    assert_eq!(read_event_payload("data: {} \n"), Some("{} ".to_owned()));
    assert_eq!(read_event_payload("data: \n"), Some("".to_owned()));
    let e = decode_response("srv", Some("text/event-stream"), "data: data: {}\n\n").unwrap_err();
    assert_eq!(e.code, 6);
    assert!(e.source.is_some());
}

#[test]
fn a_missing_content_type_is_an_error() {
    let e = decode_response("srv", None, "{}").unwrap_err();
    assert_eq!(e.code, 3);
    assert_eq!(e.message, "MCP server communication error with srv");
    assert_eq!(e.source, Some("Missing content type for MCP response".to_owned()));
}

#[test]
fn a_body_that_is_no_response_is_an_invalid_response() {
    let e = decode_response("srv", Some("application/json"), "{\"id\":\"5\"}").unwrap_err();
    assert_eq!(e.code, 6);
    assert!(e.source.is_none());
    let e = decode_response("srv", Some("application/json"), "not json").unwrap_err();
    assert_eq!(e.code, 6);
    assert!(e.source.is_some());
}

fn pair(a: &str, b: &str) -> (String, String) {
    (a.to_owned(), b.to_owned())
}

#[test]
fn request_headers_follow_the_configured_ones() {
    let configured = vec![pair("Authorization", "Bearer T")];
    let mut session = HttpSession::new();
    assert_eq!(
        session.request_headers(&configured),
        vec![
            pair("Authorization", "Bearer T"),
            pair("Content-Type", "application/json"),
            pair("Accept", "application/json,text/event-stream"),
            pair("Connection", "close"),
            pair("MCP-Protocol-Version", "2024-11-05"),
        ]
    );
    assert!(session.adopt_session_id(Some("abc".to_owned())));
    let headers = session.request_headers(&configured);
    assert_eq!(headers.len(), 6);
    assert_eq!(headers[5], pair("Mcp-Session-Id", "abc"));
}

#[test]
fn the_first_session_id_is_kept() {
    let mut session = HttpSession::new();
    assert!(!session.adopt_session_id(None));
    assert!(session.session_id.is_none());
    assert!(session.adopt_session_id(Some("one".to_owned())));
    assert!(!session.adopt_session_id(Some("two".to_owned())));
    assert!(!session.adopt_session_id(None));
    assert_eq!(session.session_id.as_deref(), Some("one"));
}

#[test]
fn closing_without_a_session_does_nothing() {
    let configured = vec![pair("X-Key", "k")];
    let mut session = HttpSession::new();
    assert!(session.termination_headers(&configured).is_none());
    session.adopt_session_id(Some("abc".to_owned()));
    assert_eq!(
        session.termination_headers(&configured).unwrap(),
        vec![
            pair("X-Key", "k"),
            pair("MCP-Protocol-Version", "2024-11-05"),
            pair("Mcp-Session-Id", "abc"),
        ]
    );
}

#[test]
fn a_message_is_framed_as_one_line() {
    let request = MCPRequest::tools_list(&Json::string("1"));
    let line = frame_line(&request.to_json());
    assert_eq!(line, "{\"id\":\"1\",\"jsonrpc\":\"2.0\",\"method\":\"tools/list\"}\n");
    assert_eq!(line.matches('\n').count(), 1);
    let mut text = Json::object();
    text.insert("t", Json::string("a\nb"));
    assert_eq!(frame_line(&text), "{\"t\":\"a\\nb\"}\n");
}

#[test]
fn a_refused_notification_fails_the_handshake() {
    assert!(nah::transport::check_notification_status("srv", 202).is_ok());
    let e = nah::transport::check_notification_status("srv", 404).unwrap_err();
    assert_eq!(e.code, 5);
    assert_eq!(e.message, "Error from MCP Server srv: Initialization is not success.");
}

#[test]
fn a_framed_line_holds_one_newline_at_its_end() {
    let line = frame_line(&Json::string("a\nb\r\n"));
    assert_eq!(line, "\"a\\nb\\r\\n\"\n");
    assert_eq!(line.matches('\n').count(), 1);
    assert!(line.ends_with('\n'));
}
