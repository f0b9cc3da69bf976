use nah::codec::{parse, to_text};
use nah::definitions::{MCPResourceContent, MCPResourceDefinition, MCPToolDefinition};
use nah::engine::{Incoming as Received, PendingCorrelation};
use nah::json::Json;
use nah::protocol::MCPRequest;
use nah::server::{
    invalid_request, process_initialize, process_request, process_resources_list,
    process_resources_read, process_tools_call, process_tools_list, read_line,
    AbstractMCPServer, Incoming, ServerInfo,
};
use nah::session::{parse_resources_list, parse_tools_list_from_response, ServerSession};
use nah::transport::frame_line;

struct Example {
    calls: Vec<(String, bool)>,
}

impl AbstractMCPServer for Example {
    fn get_server_info(&self) -> ServerInfo {
        ServerInfo { name: "example-server".to_owned(), version: "0.1.0".to_owned() }
    }

    fn get_tools_list(&self) -> Vec<MCPToolDefinition> {
        vec![MCPToolDefinition::from_json(
            &parse("{\"name\":\"foo\",\"description\":\"First part of foobar\",\"inputSchema\":{\"type\":\"object\",\"properties\":{\"bar\":{\"type\":\"string\"}}},\"annotations\":{\"destructiveHint\":false}}")
                .unwrap(),
        )
        .unwrap()]
    }

    fn on_tool_call(&mut self, name: &str, args: Option<&Json>) -> String {
        self.calls.push((name.to_owned(), args.is_some()));
        "I'm only an example.".to_owned()
    }

    fn get_resources_list(&self) -> Vec<MCPResourceDefinition> {
        vec![
            MCPResourceDefinition {
                uri: Some("files://text".to_owned()),
                uri_template: None,
                name: "text".to_owned(),
                description: Some("A text file".to_owned()),
                mime_type: None,
                size: Some(3),
            },
            MCPResourceDefinition {
                uri: None,
                uri_template: Some("files://{p}".to_owned()),
                name: "template".to_owned(),
                description: None,
                mime_type: None,
                size: None,
            },
        ]
    }

    fn on_resources_read(&mut self, uri: &str) -> Vec<MCPResourceContent> {
        vec![MCPResourceContent {
            uri: uri.to_owned(),
            mime: None,
            text: Some("abc".to_owned()),
            blob: None,
        }]
    }
}

fn id() -> Json {
    Json::string("1")
}

#[test]
fn initialize_is_answered_with_version_capabilities_and_info() {
    let mut s = Example { calls: vec![] };
    let r = process_initialize(&mut s, MCPRequest::initialize(&id(), "nah", "0.1"));
    assert_eq!(
        to_text(&r.to_json()),
        "{\"id\":\"1\",\"jsonrpc\":\"2.0\",\"result\":{\"capabilities\":{\"resources\":{\"listChanged\":false},\"tools\":{\"listChanged\":false}},\"protocolVersion\":\"2024-11-05\",\"serverInfo\":{\"name\":\"example-server\",\"version\":\"0.1.0\"}}}"
    );
}

#[test]
fn the_tools_a_server_lists_are_the_tools_a_client_reads() {
    let mut s = Example { calls: vec![] };
    let r = process_tools_list(&mut s, MCPRequest::tools_list(&id()));
    let tools = parse_tools_list_from_response("srv", r).unwrap();
    assert_eq!(tools.len(), 1);
    assert_eq!(tools[0].name, "foo");
    assert_eq!(tools[0].description.as_deref(), Some("First part of foobar"));
    assert_eq!(tools[0].annotations.as_ref().unwrap().destructive_hint, Some(false));
    assert_eq!(tools[0].annotations.as_ref().unwrap().title, None);
    assert_eq!(
        to_text(&tools[0].to_json()),
        "{\"annotations\":{\"destructiveHint\":false},\"description\":\"First part of foobar\",\"inputSchema\":{\"properties\":{\"bar\":{\"type\":\"string\"}},\"type\":\"object\"},\"name\":\"foo\"}"
    );
}

#[test]
fn a_tool_call_is_answered_with_the_tools_text() {
    let mut s = Example { calls: vec![] };
    let mut args = Json::object();
    args.insert("bar", Json::string("x"));
    let r = process_tools_call(&mut s, MCPRequest::tools_call(&id(), "foo", &args));
    assert_eq!(
        to_text(&r.to_json()),
        "{\"id\":\"1\",\"jsonrpc\":\"2.0\",\"result\":{\"content\":[{\"text\":\"I'm only an example.\",\"type\":\"text\"}]}}"
    );
    let r = process_tools_call(&mut s, MCPRequest::tools_call(&id(), "foo", &Json::string("x")));
    assert!(r.error.is_none());
    assert_eq!(s.calls, vec![("foo".to_owned(), true), ("foo".to_owned(), false)]);
}

#[test]
fn a_tool_call_without_a_name_is_an_error() {
    let mut s = Example { calls: vec![] };
    let cases = [
        ("{\"jsonrpc\":\"2.0\",\"method\":\"tools/call\",\"id\":\"1\"}", "Missing params in the tools/call request"),
        ("{\"jsonrpc\":\"2.0\",\"method\":\"tools/call\",\"id\":\"1\",\"params\":[1]}", "Invalid params in the tools/call request"),
        ("{\"jsonrpc\":\"2.0\",\"method\":\"tools/call\",\"id\":\"1\",\"params\":{\"name\":7}}", "Missing or invalid name param for tools/call request"),
        ("{\"jsonrpc\":\"2.0\",\"method\":\"tools/call\",\"id\":\"1\",\"params\":{}}", "Missing or invalid name param for tools/call request"),
    ];
    for (text, message) in cases {
        let request = MCPRequest::from_json(&parse(text).unwrap()).unwrap();
        let r = process_tools_call(&mut s, request);
        assert!(r.result.is_none());
        let error = r.error.unwrap();
        assert_eq!(error.get("message").unwrap().as_str(), Some(message));
        assert_eq!(to_text(error.get("code").unwrap()), "-32603");
    }
    assert!(s.calls.is_empty());
}

#[test]
fn only_direct_resources_are_listed() {
    let mut s = Example { calls: vec![] };
    let r = process_resources_list(&mut s, MCPRequest::resources_list(&id()));
    assert_eq!(
        to_text(&r.to_json()),
        "{\"id\":\"1\",\"jsonrpc\":\"2.0\",\"result\":{\"resources\":[{\"description\":\"A text file\",\"name\":\"text\",\"size\":3,\"uri\":\"files://text\"}]}}"
    );
    let r = process_resources_list(&mut s, MCPRequest::resources_list(&id()));
    let listed = parse_resources_list("srv", r).unwrap();
    assert_eq!(listed.len(), 1);
    assert_eq!(listed[0].size, Some(3));
}

#[test]
fn a_resource_is_read_by_uri() {
    let mut s = Example { calls: vec![] };
    let r = process_resources_read(&mut s, MCPRequest::resources_read(&id(), "files://text"));
    let contents = nah::session::read_resources("srv", r).unwrap();
    assert_eq!(contents.len(), 1);
    assert_eq!(contents[0].uri, "files://text");
    assert_eq!(contents[0].text.as_deref(), Some("abc"));
    let r = process_resources_read(&mut s, MCPRequest::tools_list(&id()));
    assert_eq!(
        r.error.unwrap().get("message").unwrap().as_str(),
        Some("Cannot find uri in the resources/read request")
    );
}

#[test]
fn an_unknown_method_is_an_invalid_request() {
    let mut s = Example { calls: vec![] };
    let r = process_request(&mut s, MCPRequest::prompts_list(&id()));
    assert_eq!(
        to_text(&r.to_json()),
        "{\"error\":{\"code\":-32600,\"message\":\"Unknown method: prompts/list\"},\"id\":\"1\",\"jsonrpc\":\"2.0\"}"
    );
    let r = invalid_request(&id(), "no".to_owned());
    assert_eq!(r.error.unwrap().get("message").unwrap().as_str(), Some("no"));
}

#[test]
fn a_line_is_a_request_a_notification_or_unreadable() {
    assert!(matches!(
        read_line("  {\"jsonrpc\":\"2.0\",\"method\":\"tools/list\",\"id\":\"1\"}\n"),
        Incoming::Request(r) if r.method == "tools/list"
    ));
    assert!(matches!(
        read_line("{\"jsonrpc\":\"2.0\",\"method\":\"notifications/initialized\"}\n"),
        Incoming::Notification
    ));
    assert!(matches!(read_line("[1]"), Incoming::Notification));
    assert!(matches!(read_line("{\"id\":\"1\"}"), Incoming::Unreadable(_)));
    assert!(matches!(read_line("oops"), Incoming::Unreadable(_)));
    assert!(matches!(read_line(""), Incoming::Unreadable(_)));
}

#[test]
fn a_client_and_a_server_understand_each_other() {
    let mut server = Example { calls: vec![] };
    let mut session = ServerSession::new("srv");
    let request = MCPRequest::tools_list(&nah::engine::new_request_id());
    let pending = PendingCorrelation::new(&request);
    let line = frame_line(&request.to_json());
    let answer = match read_line(&line) {
        Incoming::Request(r) => process_request(&mut server, r),
        other => panic!("{:?}", other),
    };
    let back = frame_line(&answer.to_json());
    match pending.receive_line("srv", &back) {
        Received::Response(r) => session.fetch_tools(r).unwrap(),
        other => panic!("{:?}", other),
    }
    assert!(session.tool_cache.contains_key("foo"));
}
