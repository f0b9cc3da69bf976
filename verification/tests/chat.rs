use nah::chat::{
    bearer_header, completion_body, completion_endpoint, get_model_response_chunk,
    namespaced_tool_name, pull_tools, tool_function_object, unpack_mcp_text_contents,
    StreamAssembler,
};
use nah::codec::{parse, to_text};
use nah::collections::StringMap;
use nah::definitions::MCPToolDefinition;
use nah::json::Json;
use nah::message::{ChatMessage, ChatResponseChunk};

fn foo_tool() -> MCPToolDefinition {
    MCPToolDefinition::from_json(
        &parse("{\"name\":\"foo\",\"description\":\"First part of foobar\",\"inputSchema\":{\"type\":\"object\",\"properties\":{\"bar\":{\"type\":\"string\"}}}}")
            .unwrap(),
    )
    .unwrap()
}

#[test]
fn a_chunk_without_the_data_prefix_is_nothing() {
    assert!(get_model_response_chunk("").is_none());
    assert!(get_model_response_chunk(": keep-alive").is_none());
    assert!(get_model_response_chunk(" data: {}").is_none());
    assert!(get_model_response_chunk("data:{}").is_none());
}

#[test]
fn the_done_chunk_ends_the_stream() {
    assert!(matches!(get_model_response_chunk("data: [DONE]"), Some(ChatResponseChunk::Done)));
    assert!(matches!(get_model_response_chunk("data: [DONE]\n"), Some(ChatResponseChunk::Done)));
}

#[test]
fn a_data_chunk_carries_the_delta_of_the_first_choice() {
    let chunk = get_model_response_chunk(
        "data: {\"choices\":[{\"delta\":{\"role\":\"assistant\",\"content\":\"Hi\"}},{\"delta\":{\"content\":\"no\"}}]} ",
    );
    match chunk {
        Some(ChatResponseChunk::Delta(d)) => {
            assert_eq!(d.role.as_deref(), Some("assistant"));
            assert_eq!(d.content.as_deref(), Some("Hi"));
            assert!(d.reasoning_content.is_none());
            assert!(d.tool_calls.is_none());
        }
        other => panic!("{:?}", other),
    }
}

#[test]
fn a_data_chunk_without_a_usable_delta_is_nothing() {
    assert!(get_model_response_chunk("data: not json").is_none());
    assert!(get_model_response_chunk("data: {}").is_none());
    assert!(get_model_response_chunk("data: {\"choices\":[]}").is_none());
    assert!(get_model_response_chunk("data: {\"choices\":[{}]}").is_none());
    assert!(get_model_response_chunk("data: {\"choices\":[{\"delta\":5}]}").is_none());
    assert!(get_model_response_chunk("data: {\"choices\":[{\"delta\":{\"content\":5}}]}").is_none());
    assert!(get_model_response_chunk(
        "data: {\"choices\":[{\"delta\":{\"tool_calls\":[{\"id\":\"x\"}]}}]}"
    )
    .is_none());
}

#[test]
fn a_delta_may_be_empty_or_hold_nulls() {
    assert!(matches!(
        get_model_response_chunk("data: {\"choices\":[{\"delta\":{}}]}"),
        Some(ChatResponseChunk::Delta(_))
    ));
    match get_model_response_chunk(
        "data: {\"choices\":[{\"delta\":{\"content\":null,\"tool_calls\":[{\"index\":1,\"function\":{\"arguments\":\"{\"}}]}}]}",
    ) {
        Some(ChatResponseChunk::Delta(d)) => {
            assert!(d.content.is_none());
            let calls = d.tool_calls.unwrap();
            assert_eq!(calls[0].index, 1);
            assert_eq!(calls[0].function.as_ref().unwrap().arguments.as_deref(), Some("{"));
            assert!(calls[0].function.as_ref().unwrap().name.is_none());
        }
        other => panic!("{:?}", other),
    }
}

fn content_chunk(text: &str) -> String {
    let mut delta = Json::object();
    delta.insert("content", Json::string(text));
    let mut choice = Json::object();
    choice.insert("delta", delta);
    let mut chunk = Json::object();
    chunk.insert("choices", Json::Array(vec![choice]));
    format!("data: {}\n\n", to_text(&chunk))
}

#[test]
fn the_assembled_content_is_the_fragments_in_order() {
    let mut a = StreamAssembler::new();
    a.feed("data: {\"choices\":[{\"delta\":{\"role\":\"assistant\"}}]}\n\n");
    a.feed(&content_chunk("Hel"));
    a.feed(&format!("{}{}", content_chunk("lo, "), content_chunk("world")));
    assert!(!a.done);
    a.feed("data: [DONE]\n\n");
    assert!(a.done);
    let message = a.finish().unwrap();
    assert_eq!(message.role, "assistant");
    assert_eq!(message.content, "Hello, world");
}

#[test]
fn nothing_is_taken_after_the_end_of_the_stream() {
    let mut a = StreamAssembler::new();
    a.feed(&format!("{}data: [DONE]\n\n{}", content_chunk("a"), content_chunk("b")));
    assert!(a.done);
    a.feed(&content_chunk("c"));
    a.feed("data: [DONE]\n\n");
    a.push(get_model_response_chunk(content_chunk("d").trim_end()));
    assert!(a.done);
    assert_eq!(a.message.content, "a");
}

#[test]
fn a_stream_that_has_not_ended_gives_no_message() {
    let mut a = StreamAssembler::new();
    a.feed(&content_chunk("partial"));
    assert!(a.finish().is_none());
}

#[test]
fn tool_call_fragments_are_assembled_across_chunks() {
    let mut a = StreamAssembler::new();
    a.feed("data: {\"choices\":[{\"delta\":{\"tool_calls\":[{\"index\":0,\"id\":\"call_1\",\"type\":\"function\",\"function\":{\"name\":\"serverA.\"}}]}}]}\n\n");
    a.feed("data: {\"choices\":[{\"delta\":{\"tool_calls\":[{\"index\":0,\"function\":{\"name\":\"foo\",\"arguments\":\"{\\\"bar\\\":\"}}]}}]}\n\n");
    a.feed("data: {\"choices\":[{\"delta\":{\"tool_calls\":[{\"index\":0,\"function\":{\"arguments\":\"\\\"x\\\"}\"}}]}}]}\n\ndata: [DONE]\n\n");
    let message = a.finish().unwrap();
    let calls = message.tool_calls.unwrap();
    assert_eq!(calls.len(), 1);
    assert_eq!(calls[0].id, "call_1");
    assert_eq!(calls[0]._type, "function");
    assert_eq!(calls[0].function.name, "serverA.foo");
    assert_eq!(calls[0].function.arguments, "{\"bar\":\"x\"}");
}

#[test]
fn the_completion_body_has_the_defaults() {
    let messages = vec![ChatMessage {
        role: "user".to_owned(),
        content: "hi".to_owned(),
        reasoning_content: None,
        tool_call_id: None,
        tool_calls: None,
    }];
    let body = completion_body("m1", &messages, &vec![], &None);
    assert_eq!(
        to_text(&body),
        "{\"frequency_penalty\":0.5,\"max_tokens\":4096,\"messages\":[{\"content\":\"hi\",\"role\":\"user\"}],\"model\":\"m1\",\"n\":1,\"stream\":true,\"temperature\":0.7,\"tools\":[],\"top_p\":0.9}"
    );
}

#[test]
fn extra_parameters_win_where_a_key_collides() {
    let extra = parse("{\"temperature\":0,\"seed\":7,\"max_tokens\":16}").unwrap();
    let body = completion_body("m1", &vec![], &vec![], &Some(extra));
    assert_eq!(
        to_text(&body),
        "{\"frequency_penalty\":0.5,\"max_tokens\":16,\"messages\":[],\"model\":\"m1\",\"n\":1,\"seed\":7,\"stream\":true,\"temperature\":0,\"tools\":[],\"top_p\":0.9}"
    );
    let ignored = completion_body("m1", &vec![], &vec![], &Some(Json::string("x")));
    assert_eq!(to_text(&ignored), to_text(&completion_body("m1", &vec![], &vec![], &None)));
}

#[test]
fn a_message_is_written_with_what_it_has() {
    let mut a = StreamAssembler::new();
    a.feed("data: {\"choices\":[{\"delta\":{\"role\":\"assistant\",\"reasoning_content\":\"r\",\"tool_calls\":[{\"index\":0,\"id\":\"c\",\"type\":\"function\",\"function\":{\"name\":\"n\",\"arguments\":\"{}\"}}]}}]}\n\ndata: [DONE]");
    let m = a.finish().unwrap();
    assert_eq!(
        to_text(&m.to_json()),
        "{\"content\":\"\",\"reasoningContent\":\"r\",\"role\":\"assistant\",\"tool_calls\":[{\"function\":{\"arguments\":\"{}\",\"name\":\"n\"},\"id\":\"c\",\"type\":\"function\"}]}"
    );
    let t = ChatMessage {
        role: "tool".to_owned(),
        content: "out".to_owned(),
        reasoning_content: None,
        tool_call_id: Some("c".to_owned()),
        tool_calls: None,
    };
    assert_eq!(
        to_text(&t.to_json()),
        "{\"content\":\"out\",\"role\":\"tool\",\"tool_call_id\":\"c\"}"
    );
    assert_eq!(to_text(&t.clone().to_json()), to_text(&t.to_json()));
}

#[test]
fn tools_are_told_to_the_model_under_namespaced_names() {
    assert_eq!(namespaced_tool_name("serverA", "foo"), "serverA.foo");
    let tool = foo_tool();
    assert_eq!(
        to_text(&tool_function_object("serverA", &tool)),
        "{\"function\":{\"description\":\"First part of foobar\",\"name\":\"serverA.foo\",\"parameters\":{\"properties\":{\"bar\":{\"type\":\"string\"}},\"type\":\"object\"},\"strict\":false},\"type\":\"function\"}"
    );
    let mut tools: Vec<Json> = Vec::new();
    let mut names: StringMap<String> = StringMap::new();
    pull_tools(&mut tools, &mut names, "serverA", &vec![&tool]);
    pull_tools(&mut tools, &mut names, "serverB", &vec![&tool, &tool]);
    assert_eq!(tools.len(), 3);
    assert_eq!(names.len(), 2);
    assert_eq!(names.get("serverA.foo").map(|s| s.as_str()), Some("serverA"));
    assert_eq!(names.get("serverB.foo").map(|s| s.as_str()), Some("serverB"));
    assert!(names.get("foo").is_none());
}

#[test]
fn the_text_of_a_tool_result_is_its_text_items_in_order() {
    let result = parse("{\"content\":[{\"type\":\"text\",\"text\":\"a\"},{\"type\":\"image\",\"data\":\"..\"},{\"text\":7},{\"type\":\"text\",\"text\":\"b\"},\"c\"]}").unwrap();
    assert_eq!(unpack_mcp_text_contents("srv", &result).unwrap(), "ab");
    assert_eq!(unpack_mcp_text_contents("srv", &parse("{\"content\":[]}").unwrap()).unwrap(), "");
    let e = unpack_mcp_text_contents("srv", &parse("{\"content\":\"x\"}").unwrap()).unwrap_err();
    assert_eq!(e.code, 6);
    assert!(unpack_mcp_text_contents("srv", &parse("[]").unwrap()).is_err());
}

#[test]
fn the_endpoint_and_the_bearer_header_are_put_together() {
    assert_eq!(completion_endpoint("http://localhost:8080"), "http://localhost:8080/chat/completions");
    assert_eq!(bearer_header("sk-1"), "Bearer sk-1");
}

#[test]
fn a_refused_completion_is_an_error_with_status_and_body() {
    assert!(nah::chat::check_completion_status("m1", 200, "").is_ok());
    assert!(nah::chat::check_completion_status("m1", 299, "").is_ok());
    let e = nah::chat::check_completion_status("m1", 500, "overloaded").unwrap_err();
    assert_eq!(e.code, 101);
    assert_eq!(
        e.message,
        "Error from model m1: Model server responded with error: HTTP status 500, error message = overloaded"
    );
    assert!(nah::chat::check_completion_status("m1", 199, "").is_err());
    assert!(nah::chat::check_completion_status("m1", 300, "").is_err());
}
