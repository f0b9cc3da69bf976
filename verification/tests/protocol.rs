use nah::codec::{parse, to_text};
use nah::json::Json;
use nah::protocol::{MCPNotification, MCPRequest, MCPResponse};

fn id() -> Json {
    Json::string("7f3c")
}

fn round_trip(request: &MCPRequest) -> MCPRequest {
    let text = to_text(&request.to_json());
    MCPRequest::from_json(&parse(&text).unwrap()).unwrap()
}

fn same(a: &Option<Json>, b: &Option<Json>) -> bool {
    match (a, b) {
        (None, None) => true,
        (Some(x), Some(y)) => to_text(x) == to_text(y),
        _ => false,
    }
}

fn check_round_trip(request: MCPRequest, method: &str) {
    assert_eq!(request.method, method);
    let back = round_trip(&request);
    assert_eq!(back.method, method);
    assert_eq!(back.jsonrpc, "2.0");
    assert_eq!(back.id.as_str(), Some("7f3c"));
    assert!(same(&back.params, &request.params));
}

#[test]
fn every_request_round_trips_through_json_text() {
    check_round_trip(MCPRequest::initialize(&id(), "nah", "0.1"), "initialize");
    check_round_trip(MCPRequest::tools_list(&id()), "tools/list");
    let mut args = Json::object();
    args.insert("bar", Json::string("x"));
    check_round_trip(MCPRequest::tools_call(&id(), "foo", &args), "tools/call");
    check_round_trip(MCPRequest::resources_list(&id()), "resources/list");
    check_round_trip(MCPRequest::resource_templates_list(&id()), "resources/templates/list");
    check_round_trip(MCPRequest::resources_read(&id(), "files://text"), "resources/read");
    check_round_trip(MCPRequest::prompts_list(&id()), "prompts/list");
    let pairs = vec![("topic".to_owned(), "rust".to_owned())];
    check_round_trip(MCPRequest::get_prompt(&id(), "summarise", &pairs), "prompts/get");
}

#[test]
fn initialize_carries_version_capabilities_and_client_info() {
    let request = MCPRequest::initialize(&id(), "nah", "0.1");
    assert_eq!(
        to_text(&request.to_json()),
        "{\"id\":\"7f3c\",\"jsonrpc\":\"2.0\",\"method\":\"initialize\",\"params\":{\"capabilities\":{},\"clientInfo\":{\"name\":\"nah\",\"version\":\"0.1\"},\"protocolVersion\":\"2024-11-05\"}}"
    );
}

#[test]
fn a_request_without_params_has_no_params_member() {
    let request = MCPRequest::tools_list(&id());
    assert!(request.params.is_none());
    assert_eq!(
        to_text(&request.to_json()),
        "{\"id\":\"7f3c\",\"jsonrpc\":\"2.0\",\"method\":\"tools/list\"}"
    );
}

#[test]
fn tools_call_carries_name_and_arguments() {
    let mut args = Json::object();
    args.insert("bar", Json::string("x"));
    let request = MCPRequest::tools_call(&id(), "foo", &args);
    let params = request.params.unwrap();
    assert_eq!(params.get("name").unwrap().as_str(), Some("foo"));
    assert_eq!(params.get("arguments").unwrap().get("bar").unwrap().as_str(), Some("x"));
}

#[test]
fn get_prompt_without_arguments_sends_null() {
    let request = MCPRequest::get_prompt(&id(), "p", &vec![]);
    let params = request.params.unwrap();
    assert_eq!(params.get("name").unwrap().as_str(), Some("p"));
    assert!(params.get("arguments").unwrap().is_null());
}

#[test]
fn get_prompt_with_arguments_sends_an_object_of_texts() {
    let pairs = vec![("a".to_owned(), "1".to_owned()), ("b".to_owned(), "2".to_owned())];
    let request = MCPRequest::get_prompt(&id(), "p", &pairs);
    let params = request.params.unwrap();
    let arguments = params.get("arguments").unwrap();
    assert_eq!(arguments.get("a").unwrap().as_str(), Some("1"));
    assert_eq!(arguments.get("b").unwrap().as_str(), Some("2"));
}

#[test]
fn the_initialized_notification_has_no_id_and_null_params() {
    let n = MCPNotification::initialized();
    assert_eq!(
        to_text(&n.to_json()),
        "{\"jsonrpc\":\"2.0\",\"method\":\"notifications/initialized\",\"params\":null}"
    );
    let back = MCPNotification::from_json(&n.to_json()).unwrap();
    assert_eq!(back.method, "notifications/initialized");
    assert!(back.params.is_none());
}

#[test]
fn a_response_is_read_with_result_or_error() {
    let j = parse("{\"jsonrpc\":\"2.0\",\"id\":\"5\",\"result\":{}}").unwrap();
    let r = MCPResponse::from_json(&j).unwrap();
    assert_eq!(r.id.as_str(), Some("5"));
    assert!(r.result.unwrap().is_object());
    assert!(r.error.is_none());

    let j = parse("{\"jsonrpc\":\"2.0\",\"id\":5,\"error\":{\"code\":-1},\"result\":null}").unwrap();
    let r = MCPResponse::from_json(&j).unwrap();
    assert!(r.result.is_none());
    assert!(r.error.is_some());
}

#[test]
fn a_response_needs_a_version_tag_and_an_id() {
    assert!(MCPResponse::from_json(&parse("{\"id\":\"5\",\"result\":{}}").unwrap()).is_none());
    assert!(MCPResponse::from_json(&parse("{\"jsonrpc\":\"2.0\",\"result\":{}}").unwrap()).is_none());
    assert!(MCPResponse::from_json(&parse("[1]").unwrap()).is_none());
}

#[test]
fn a_new_response_is_written_without_what_it_lacks() {
    let r = MCPResponse::new(Json::string("9"), Some(Json::object()), None);
    assert_eq!(to_text(&r.to_json()), "{\"id\":\"9\",\"jsonrpc\":\"2.0\",\"result\":{}}");
}
