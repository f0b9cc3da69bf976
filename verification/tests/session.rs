use nah::codec::parse;
use nah::protocol::MCPResponse;
use nah::session::{
    call_tool, get_prompt_content, parse_prompts_list, parse_resource_templates_list,
    parse_resources_list, parse_response_error, parse_tools_list_from_response, read_resources,
    Lookup, ServerSession, DEFAULT_TIMEOUT_MS,
};

fn response(text: &str) -> MCPResponse {
    MCPResponse::from_json(&parse(text).unwrap()).unwrap()
}

fn result(inner: &str) -> MCPResponse {
    response(&format!("{{\"jsonrpc\":\"2.0\",\"id\":\"1\",\"result\":{}}}", inner))
}

const TOOLS: &str = "{\"tools\":[{\"name\":\"foo\",\"description\":\"First\",\"inputSchema\":{\"type\":\"object\",\"properties\":{\"bar\":{\"type\":\"string\"}}}},{\"name\":\"wipe\",\"inputSchema\":{},\"annotations\":{\"destructiveHint\":true,\"title\":\"Wipe\"}}]}";

#[test]
fn a_tool_list_is_read() {
    let tools = parse_tools_list_from_response("srv", result(TOOLS)).unwrap();
    assert_eq!(tools.len(), 2);
    assert_eq!(tools[0].name, "foo");
    assert_eq!(tools[0].description.as_deref(), Some("First"));
    assert!(!tools[0].is_destructive());
    assert!(tools[0].annotations.is_none());
    assert_eq!(tools[1].name, "wipe");
    assert!(tools[1].is_destructive());
    assert!(!tools[1].is_open_world());
    assert_eq!(tools[1].annotations.as_ref().unwrap().title.as_deref(), Some("Wipe"));
    assert_eq!(tools[1].annotations.as_ref().unwrap().read_only_hint, None);
}

#[test]
fn one_malformed_tool_fails_the_whole_list() {
    let e = parse_tools_list_from_response(
        "srv",
        result("{\"tools\":[{\"name\":\"foo\",\"inputSchema\":{}},{\"name\":\"noschema\"}]}"),
    )
    .unwrap_err();
    assert_eq!(e.code, 6);
    let e = parse_tools_list_from_response(
        "srv",
        result("{\"tools\":[{\"name\":\"foo\",\"inputSchema\":{},\"annotations\":{\"destructiveHint\":\"yes\"}}]}"),
    )
    .unwrap_err();
    assert_eq!(e.code, 6);
    let e = parse_tools_list_from_response("srv", result("{\"tools\":{}}")).unwrap_err();
    assert_eq!(e.code, 6);
}

#[test]
fn a_tool_list_response_without_result_is_the_servers_error() {
    let e = parse_tools_list_from_response(
        "srv",
        response("{\"jsonrpc\":\"2.0\",\"id\":\"1\",\"error\":{\"code\":7}}"),
    )
    .unwrap_err();
    assert_eq!(e.code, 5);
    assert_eq!(e.message, "Error from MCP Server srv: {\n  \"code\": 7\n}");
    let e = parse_tools_list_from_response("srv", response("{\"jsonrpc\":\"2.0\",\"id\":\"1\"}"))
        .unwrap_err();
    assert_eq!(e.code, 5);
    assert_eq!(e.message, "Error from MCP Server srv: unknown error");
    assert!(e.source.is_none());
}

#[test]
fn malformed_resources_are_left_out() {
    let r = parse_resources_list(
        "srv",
        result("{\"resources\":[{\"uri\":\"files://a\",\"name\":\"a\",\"size\":12,\"mimeType\":\"text/plain\"},{\"uri\":\"files://b\"},{\"name\":\"nouri\"},7,{\"uri\":\"files://c\",\"name\":\"c\",\"size\":-1},{\"uri\":\"files://d\",\"name\":\"d\",\"size\":1.5}]}"),
    )
    .unwrap();
    assert_eq!(r.len(), 1);
    assert_eq!(r[0].uri.as_deref(), Some("files://a"));
    assert_eq!(r[0].size, Some(12));
    assert_eq!(r[0].mime_type.as_deref(), Some("text/plain"));
    assert!(r[0].uri_template.is_none());
    assert_eq!(parse_resources_list("srv", result("{}")).unwrap_err().code, 6);
}

#[test]
fn templates_are_read_from_their_own_list() {
    let r = parse_resource_templates_list(
        "srv",
        result("{\"resourceTemplates\":[{\"uriTemplate\":\"files://{p}\",\"name\":\"t\"},{\"uri\":\"files://a\",\"name\":\"a\"}]}"),
    )
    .unwrap();
    assert_eq!(r.len(), 1);
    assert_eq!(r[0].uri_template.as_deref(), Some("files://{p}"));
}

#[test]
fn malformed_prompts_are_left_out() {
    let r = parse_prompts_list(
        "srv",
        result("{\"prompts\":[{\"name\":\"p\",\"arguments\":[{\"name\":\"a\",\"required\":true},{\"name\":\"b\"}]},{\"description\":\"anonymous\"},{\"name\":\"q\",\"arguments\":[{}]}]}"),
    )
    .unwrap();
    assert_eq!(r.len(), 1);
    assert_eq!(r[0].name, "p");
    let args = r[0].arguments.as_ref().unwrap();
    assert_eq!(args.len(), 2);
    assert_eq!(args[0].required, Some(true));
    assert_eq!(args[1].required, None);
}

#[test]
fn contents_without_payload_are_left_out() {
    let r = read_resources(
        "srv",
        result("{\"contents\":[{\"uri\":\"a\",\"text\":\"hello\"},{\"uri\":\"b\"},{\"uri\":\"c\",\"blob\":\"AAEC\"},{\"text\":\"nouri\"}]}"),
    )
    .unwrap();
    assert_eq!(r.len(), 2);
    assert_eq!(r[0].text.as_deref(), Some("hello"));
    assert_eq!(r[1].blob.as_deref(), Some("AAEC"));
    let e = read_resources("srv", result("{}")).unwrap_err();
    assert_eq!(e.code, 5);
    assert_eq!(e.message, "Error from MCP Server srv: unknown error");
}

#[test]
fn a_tool_call_gives_the_raw_result_or_the_servers_error() {
    let r = call_tool("srv", result("{\"content\":[]}")).unwrap();
    assert!(r.get("content").is_some());
    let e = call_tool("srv", response("{\"jsonrpc\":\"2.0\",\"id\":\"1\",\"error\":{\"m\":\"no\"}}"))
        .unwrap_err();
    assert_eq!(e.code, 5);
    assert_eq!(e.message, "Error from MCP Server srv: {\"m\":\"no\"}");
    let e = call_tool("srv", response("{\"jsonrpc\":\"2.0\",\"id\":\"1\"}")).unwrap_err();
    assert_eq!(e.message, "Error from MCP Server srv: unknown error");
    let plain = response("{\"jsonrpc\":\"2.0\",\"id\":\"1\"}");
    assert_eq!(parse_response_error("srv", &plain).code, 5);
}

#[test]
fn a_prompt_result_is_read_in_order() {
    let r = get_prompt_content(
        "srv",
        result("{\"description\":\"d\",\"messages\":[{\"role\":\"user\",\"content\":{\"type\":\"text\",\"text\":\"one\"}},{\"role\":\"assistant\",\"content\":{\"type\":\"text\",\"text\":\"two\"}}]}"),
    )
    .unwrap();
    assert_eq!(r.description.as_deref(), Some("d"));
    assert_eq!(r.messages.len(), 2);
    assert_eq!(r.messages[0].role, "user");
    assert_eq!(r.messages[1].content.text.as_deref(), Some("two"));
    assert_eq!(r.messages[1].content.type_, "text");
    assert_eq!(get_prompt_content("srv", result("{\"messages\":[{}]}")).unwrap_err().code, 6);
}

#[test]
fn a_missing_tool_asks_for_one_refresh_and_then_fails() {
    let mut session = ServerSession::new("srv");
    assert_eq!(session.timeout_ms, DEFAULT_TIMEOUT_MS);
    assert_eq!(session.timeout_ms, 5000);
    assert!(matches!(session.get_tool_definition("missing", false), Lookup::Refresh));
    session.fetch_tools(result(TOOLS)).unwrap();
    match session.get_tool_definition("missing", true) {
        Lookup::Missing(e) => {
            assert_eq!(e.code, 2);
            assert_eq!(e.message, "Invalid value error: Invalid tool name: missing");
        }
        _ => panic!("a second refresh was asked for"),
    }
    assert!(matches!(session.get_tool_definition("foo", false), Lookup::Found(d) if d.name == "foo"));
    assert!(matches!(session.get_tool_definition("foo", true), Lookup::Found(_)));
}

#[test]
fn a_fetch_replaces_the_cache_wholesale() {
    let mut session = ServerSession::new("srv");
    session.fetch_tools(result(TOOLS)).unwrap();
    assert_eq!(session.tool_cache.len(), 2);
    session.fetch_tools(result("{\"tools\":[{\"name\":\"only\",\"inputSchema\":{}}]}")).unwrap();
    assert_eq!(session.tool_cache.len(), 1);
    assert!(session.tool_cache.contains_key("only"));
    assert!(!session.tool_cache.contains_key("foo"));
    assert!(session.fetch_tools(result("{}")).is_err());
    assert_eq!(session.tool_cache.len(), 1);
    let names: Vec<&str> =
        session.tool_cache.values().iter().map(|d| d.name.as_str()).collect();
    assert_eq!(names, vec!["only"]);
}

#[test]
fn a_name_listed_twice_keeps_the_later_definition() {
    let mut session = ServerSession::new("srv");
    session
        .fetch_tools(result("{\"tools\":[{\"name\":\"a\",\"description\":\"1\",\"inputSchema\":{}},{\"name\":\"b\",\"inputSchema\":{}},{\"name\":\"a\",\"description\":\"2\",\"inputSchema\":{}}]}"))
        .unwrap();
    assert_eq!(session.tool_cache.len(), 2);
    assert_eq!(session.tool_cache.get("a").unwrap().description.as_deref(), Some("2"));
}

#[test]
fn resources_are_looked_up_by_uri_and_prompts_by_name() {
    let mut session = ServerSession::new("srv");
    assert_eq!(session.get_server_name(), "srv");
    assert!(matches!(session.get_resources_definition("files://a", false), Lookup::Refresh));
    session
        .fetch_resources_list(result("{\"resources\":[{\"uri\":\"files://a\",\"name\":\"text\"}]}"))
        .unwrap();
    assert!(matches!(
        session.get_resources_definition("files://a", false),
        Lookup::Found(d) if d.name == "text"
    ));
    match session.get_resources_definition("text", true) {
        Lookup::Missing(e) => {
            assert_eq!(e.message, "Invalid value error: Invalid resource uri: text")
        }
        _ => panic!(),
    }
    session.fetch_prompts_list(result("{\"prompts\":[{\"name\":\"p\"}]}")).unwrap();
    assert!(matches!(session.get_prompt_definition("p", false), Lookup::Found(_)));
    match session.get_prompt_definition("q", true) {
        Lookup::Missing(e) => assert_eq!(e.message, "Invalid value error: Invalid prompt name: q"),
        _ => panic!(),
    }
    let templates = session
        .fetch_resource_templates_list(result("{\"resourceTemplates\":[]}"))
        .unwrap();
    assert!(templates.is_empty());
    session.set_timeout(250);
    assert_eq!(session.timeout_ms, 250);
}

#[test]
fn every_cached_definition_stands_under_its_own_key() {
    let mut session = ServerSession::new("srv");
    session.fetch_tools(result(TOOLS)).unwrap();
    session
        .fetch_resources_list(result(
            "{\"resources\":[{\"uri\":\"files://a\",\"name\":\"a\"},{\"uri\":\"files://b\",\"name\":\"b\"}]}",
        ))
        .unwrap();
    session.fetch_prompts_list(result("{\"prompts\":[{\"name\":\"p\"},{\"name\":\"q\"}]}")).unwrap();
    assert_eq!(session.tool_cache.len(), 2);
    for i in 0..session.tool_cache.len() {
        let (key, tool) = session.tool_cache.entry(i);
        assert_eq!(key, tool.name);
    }
    assert_eq!(session.resource_cache.len(), 2);
    for i in 0..session.resource_cache.len() {
        let (key, resource) = session.resource_cache.entry(i);
        assert_eq!(Some(key), resource.uri.as_deref());
    }
    assert_eq!(session.prompt_cache.len(), 2);
    for i in 0..session.prompt_cache.len() {
        let (key, prompt) = session.prompt_cache.entry(i);
        assert_eq!(key, prompt.name);
    }
}

#[test]
fn a_failed_list_response_without_an_error_is_an_unknown_server_error() {
    let mut session = ServerSession::new("srv");
    let e = session.fetch_tools(response("{\"jsonrpc\":\"2.0\",\"id\":\"1\"}")).unwrap_err();
    assert_eq!(e.code, 5);
    assert_eq!(e.message, "Error from MCP Server srv: unknown error");
    let e = session.fetch_prompts_list(response("{\"jsonrpc\":\"2.0\",\"id\":\"1\"}")).unwrap_err();
    assert_eq!(e.code, 5);
    assert_eq!(e.message, "Error from MCP Server srv: unknown error");
}
