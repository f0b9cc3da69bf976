use nah::chat::{check_completion_status, pull_tools, StreamAssembler};
use nah::codec::{parse, to_text};
use nah::collections::StringMap;
use nah::definitions::MCPToolDefinition;
use nah::error::NahError;
use nah::json::Json;
use nah::message::{ChatMessage, FunctionCallRequest, ToolCallRequest};
use nah::turn::{ChatContext, TurnAction, TurnPhase};

fn tool(text: &str) -> MCPToolDefinition {
    MCPToolDefinition::from_json(&parse(text).unwrap()).unwrap()
}

fn context(tools: &Vec<&MCPToolDefinition>, system: Option<&str>) -> ChatContext {
    let mut told: Vec<Json> = Vec::new();
    let mut names: StringMap<String> = StringMap::new();
    pull_tools(&mut told, &mut names, "serverA", tools);
    ChatContext::new("m1".to_owned(), told, names, None, system.map(|s| s.to_owned()))
}

fn assistant(content: &str, calls: Option<Vec<(&str, &str, &str)>>) -> ChatMessage {
    ChatMessage {
        role: "assistant".to_owned(),
        content: content.to_owned(),
        reasoning_content: None,
        tool_call_id: None,
        tool_calls: calls.map(|v| {
            v.into_iter()
                .map(|(id, name, arguments)| ToolCallRequest {
                    id: id.to_owned(),
                    _type: "function".to_owned(),
                    function: FunctionCallRequest {
                        name: name.to_owned(),
                        arguments: arguments.to_owned(),
                    },
                })
                .collect()
        }),
    }
}

/// Writes the lines that the machine hands out to `sink` and tells the
/// machine so, until the machine asks for something else.
fn settle(c: &mut ChatContext, sink: &mut Vec<String>, first: TurnAction) -> TurnAction {
    let mut action = first;
    loop {
        match action {
            TurnAction::Record { lines } => {
                sink.extend(lines);
                action = c.recorded();
            }
            other => return other,
        }
    }
}

fn say(c: &mut ChatContext, sink: &mut Vec<String>, text: String) -> TurnAction {
    let action = c.user_message(text);
    settle(c, sink, action)
}

fn complete(c: &mut ChatContext, sink: &mut Vec<String>, message: ChatMessage) -> TurnAction {
    let action = c.completion_finished(message);
    settle(c, sink, action)
}

fn returned(c: &mut ChatContext, sink: &mut Vec<String>, result: &Json) -> TurnAction {
    let action = c.tool_returned(result);
    settle(c, sink, action)
}

const FOO: &str = "{\"name\":\"foo\",\"inputSchema\":{\"type\":\"object\",\"properties\":{\"bar\":{\"type\":\"string\"}}}}";
const WIPE: &str =
    "{\"name\":\"wipe\",\"inputSchema\":{},\"annotations\":{\"destructiveHint\":true}}";

#[test]
fn a_turn_with_one_tool_call_ends_with_the_models_answer() {
    let foo = tool(FOO);
    let mut c = context(&vec![&foo], None);
    let mut sink: Vec<String> = Vec::new();
    assert!(matches!(say(&mut c, &mut sink, "call foo".to_owned()), TurnAction::RequestCompletion));
    assert_eq!(c.messages.len(), 1);

    let mut stream = StreamAssembler::new();
    stream.feed("data: {\"choices\":[{\"delta\":{\"role\":\"assistant\",\"tool_calls\":[{\"index\":0,\"id\":\"call_1\",\"type\":\"function\",\"function\":{\"name\":\"serverA.foo\",\"arguments\":\"{\\\"bar\\\":\\\"x\\\"}\"}}]}}]}\n\ndata: [DONE]\n\n");
    match complete(&mut c, &mut sink, stream.finish().unwrap()) {
        TurnAction::LookupTool { server, tool } => {
            assert_eq!(server, "serverA");
            assert_eq!(tool, "foo");
        }
        other => panic!("{:?}", other),
    }
    match c.definition_found(&foo) {
        TurnAction::CallTool { server, tool, args } => {
            assert_eq!(server, "serverA");
            assert_eq!(tool, "foo");
            assert_eq!(to_text(&args), "{\"bar\":\"x\"}");
        }
        other => panic!("{:?}", other),
    }
    let result = parse("{\"content\":[{\"type\":\"text\",\"text\":\"I don't know\"}]}").unwrap();
    assert!(matches!(returned(&mut c, &mut sink, &result), TurnAction::RequestCompletion));
    assert_eq!(c.phase, TurnPhase::AwaitingCompletion);
    assert_eq!(c.messages.len(), 3);
    assert_eq!(c.messages[2].role, "tool");
    assert_eq!(c.messages[2].content, "I don't know");
    assert_eq!(c.messages[2].tool_call_id.as_deref(), Some("call_1"));

    assert!(matches!(complete(&mut c, &mut sink, assistant("done", None)), TurnAction::Answer));
    assert_eq!(c.phase, TurnPhase::Idle);
    assert_eq!(c.messages.len(), 4);
    let roles: Vec<&str> = c.messages.iter().map(|m| m.role.as_str()).collect();
    assert_eq!(roles, vec!["user", "assistant", "tool", "assistant"]);
    assert_eq!(c.messages[3].content, "done");
    assert_eq!(sink.len(), 4);
    assert_eq!(sink[0], "{\"content\":\"call foo\",\"role\":\"user\"}\n");
    for (line, message) in sink.iter().zip(c.messages.iter()) {
        assert_eq!(*line, format!("{}\n", to_text(&message.to_json())));
    }
}

#[test]
fn a_message_is_in_the_transcript_before_it_is_in_the_history() {
    let foo = tool(FOO);
    let mut c = context(&vec![&foo], Some("be brief"));
    assert_eq!(c.messages.len(), 1);

    let lines = match c.user_message("hi".to_owned()) {
        TurnAction::Record { lines } => lines,
        other => panic!("{:?}", other),
    };
    assert_eq!(lines, vec!["{\"content\":\"hi\",\"role\":\"user\"}\n".to_owned()]);
    assert_eq!(c.phase, TurnPhase::RecordingInput);
    assert_eq!(c.messages.len(), 1);
    assert_eq!(c.staged.len(), 1);
    assert!(matches!(c.recorded(), TurnAction::RequestCompletion));
    assert_eq!(c.messages.len(), 2);
    assert_eq!(c.messages[1].role, "user");
    assert!(c.staged.is_empty());

    let call = assistant("", Some(vec![("c1", "serverA.foo", "{}")]));
    let lines = match c.completion_finished(call) {
        TurnAction::Record { lines } => lines,
        other => panic!("{:?}", other),
    };
    assert_eq!(lines.len(), 1);
    assert!(lines[0].starts_with("{\"content\":\"\",\"role\":\"assistant\",\"tool_calls\":["));
    assert!(lines[0].ends_with("\n"));
    assert_eq!(c.phase, TurnPhase::RecordingCompletion);
    assert_eq!(c.messages.len(), 2);
    assert!(matches!(c.recorded(), TurnAction::LookupTool { .. }));
    assert_eq!(c.messages.len(), 3);

    c.definition_found(&foo);
    let result = parse("{\"content\":[{\"text\":\"one\"}]}").unwrap();
    let lines = match c.tool_returned(&result) {
        TurnAction::Record { lines } => lines,
        other => panic!("{:?}", other),
    };
    assert_eq!(
        lines,
        vec!["{\"content\":\"one\",\"role\":\"tool\",\"tool_call_id\":\"c1\"}\n".to_owned()]
    );
    assert_eq!(c.phase, TurnPhase::RecordingInput);
    assert_eq!(c.messages.len(), 3);
    assert!(matches!(c.recorded(), TurnAction::RequestCompletion));
    assert_eq!(c.messages.len(), 4);
    assert_eq!(c.messages[3].role, "tool");

    let lines = match c.completion_finished(assistant("done", None)) {
        TurnAction::Record { lines } => lines,
        other => panic!("{:?}", other),
    };
    assert_eq!(lines, vec!["{\"content\":\"done\",\"role\":\"assistant\"}\n".to_owned()]);
    assert_eq!(c.messages.len(), 4);
    assert!(matches!(c.recorded(), TurnAction::Answer));
    assert_eq!(c.phase, TurnPhase::Idle);
    assert_eq!(c.messages.len(), 5);
}

#[test]
fn a_declined_destructive_tool_is_never_called() {
    let wipe = tool(WIPE);
    let mut c = context(&vec![&wipe], None);
    let mut sink: Vec<String> = Vec::new();
    say(&mut c, &mut sink, "wipe it".to_owned());
    let action = complete(&mut c, &mut sink, assistant("", Some(vec![("c1", "serverA.wipe", "{}")])));
    assert!(matches!(action, TurnAction::LookupTool { .. }));
    match c.definition_found(&wipe) {
        TurnAction::Confirm { prompt, cancel_message } => {
            assert_eq!(
                prompt,
                "Model requests to call tool wipe, which is annotated as destructive. Do you still want to call? [N/y] > "
            );
            assert_eq!(cancel_message, "Cancel the tool call!");
        }
        other => panic!("{:?}", other),
    }
    assert_eq!(c.phase, TurnPhase::AwaitingConfirmation);
    match c.confirmed(false) {
        TurnAction::Abort(e) => {
            assert_eq!(e.code, 201);
            assert!(e.is_user_cancel());
        }
        other => panic!("{:?}", other),
    }
    assert_eq!(c.phase, TurnPhase::Idle);
    assert_eq!(c.messages.len(), 2);
    assert!(c.pending.is_none());
}

#[test]
fn a_confirmed_destructive_tool_is_called() {
    let wipe = tool(WIPE);
    let mut c = context(&vec![&wipe], None);
    let mut sink: Vec<String> = Vec::new();
    say(&mut c, &mut sink, "wipe it".to_owned());
    complete(&mut c, &mut sink, assistant("", Some(vec![("c1", "serverA.wipe", "{\"all\":true}")])));
    c.definition_found(&wipe);
    match c.confirmed(true) {
        TurnAction::CallTool { server, tool, args } => {
            assert_eq!((server.as_str(), tool.as_str()), ("serverA", "wipe"));
            assert_eq!(to_text(&args), "{\"all\":true}");
        }
        other => panic!("{:?}", other),
    }
    assert_eq!(c.phase, TurnPhase::AwaitingToolResult);
}

#[test]
fn the_answers_of_a_round_join_the_history_together() {
    let foo = tool(FOO);
    let mut c = context(&vec![&foo], Some("be brief"));
    let mut sink: Vec<String> = Vec::new();
    assert_eq!(c.messages[0].role, "system");
    assert_eq!(c.messages[0].content, "be brief");
    say(&mut c, &mut sink, "twice".to_owned());
    complete(&mut c, &mut sink, assistant(
        "",
        Some(vec![("c1", "serverA.foo", "{}"), ("c2", "serverA.foo", "{\"bar\":\"y\"}")]),
    ));
    c.definition_found(&foo);
    let first = parse("{\"content\":[{\"text\":\"one\"}]}").unwrap();
    assert!(matches!(returned(&mut c, &mut sink, &first), TurnAction::LookupTool { .. }));
    assert_eq!(c.messages.len(), 3);
    assert_eq!(c.call_index, 1);
    c.definition_found(&foo);
    let second = parse("{\"content\":[{\"text\":\"two\"}]}").unwrap();
    assert!(matches!(returned(&mut c, &mut sink, &second), TurnAction::RequestCompletion));
    assert_eq!(c.messages.len(), 5);
    assert_eq!(c.messages[3].content, "one");
    assert_eq!(c.messages[3].tool_call_id.as_deref(), Some("c1"));
    assert_eq!(c.messages[4].content, "two");
    assert_eq!(c.messages[4].tool_call_id.as_deref(), Some("c2"));
    assert_eq!(c.call_index, 0);
}

#[test]
fn a_failure_in_the_middle_of_a_round_drops_its_answers() {
    let foo = tool(FOO);
    let mut c = context(&vec![&foo], None);
    let mut sink: Vec<String> = Vec::new();
    say(&mut c, &mut sink, "twice".to_owned());
    complete(&mut c, &mut sink, assistant(
        "",
        Some(vec![("c1", "serverA.foo", "{}"), ("c2", "serverA.foo", "{}")]),
    ));
    c.definition_found(&foo);
    returned(&mut c, &mut sink, &parse("{\"content\":[]}").unwrap());
    c.definition_found(&foo);
    match c.tool_failed(NahError::mcp_server_timeout("serverA", None)) {
        TurnAction::Abort(e) => assert_eq!(e.code, 9),
        other => panic!("{:?}", other),
    }
    assert_eq!(c.phase, TurnPhase::Idle);
    assert_eq!(c.messages.len(), 2);
    assert!(c.responses.is_empty());
}

#[test]
fn arguments_that_are_not_json_end_the_turn() {
    let foo = tool(FOO);
    let mut c = context(&vec![&foo], None);
    let mut sink: Vec<String> = Vec::new();
    say(&mut c, &mut sink, "go".to_owned());
    match complete(&mut c, &mut sink, assistant("", Some(vec![("c1", "serverA.foo", "{\"bar\":")]))) {
        TurnAction::Abort(e) => {
            assert_eq!(e.code, 10);
            assert_eq!(
                e.message,
                "Failed to load arguments: Argument should be a JSON Object, but received an invalid value from the model!"
            );
            assert!(e.source.is_some());
        }
        other => panic!("{:?}", other),
    }
    assert_eq!(c.phase, TurnPhase::Idle);
}

#[test]
fn a_tool_that_no_server_has_ends_the_turn() {
    let foo = tool(FOO);
    let mut c = context(&vec![&foo], None);
    let mut sink: Vec<String> = Vec::new();
    say(&mut c, &mut sink, "go".to_owned());
    match complete(&mut c, &mut sink, assistant("", Some(vec![("c1", "serverB.foo", "{}")]))) {
        TurnAction::Abort(e) => {
            assert_eq!(e.code, 102);
            assert_eq!(e.message, "Invalid response from model: m1");
        }
        other => panic!("{:?}", other),
    }
}

#[test]
fn a_result_without_contents_ends_the_turn() {
    let foo = tool(FOO);
    let mut c = context(&vec![&foo], None);
    let mut sink: Vec<String> = Vec::new();
    say(&mut c, &mut sink, "go".to_owned());
    complete(&mut c, &mut sink, assistant("", Some(vec![("c1", "serverA.foo", "{}")])));
    c.definition_found(&foo);
    match returned(&mut c, &mut sink, &parse("{}").unwrap()) {
        TurnAction::Abort(e) => {
            assert_eq!(e.code, 6);
            assert_eq!(e.message, "Received invalid response from MCP Server serverA");
        }
        other => panic!("{:?}", other),
    }
}

#[test]
fn a_definition_that_cannot_be_had_ends_the_turn() {
    let foo = tool(FOO);
    let mut c = context(&vec![&foo], None);
    let mut sink: Vec<String> = Vec::new();
    say(&mut c, &mut sink, "go".to_owned());
    complete(&mut c, &mut sink, assistant("", Some(vec![("c1", "serverA.foo", "{}")])));
    match c.definition_failed(NahError::invalid_value("Invalid tool name: foo", None)) {
        TurnAction::Abort(e) => assert_eq!(e.code, 2),
        other => panic!("{:?}", other),
    }
    assert_eq!(c.phase, TurnPhase::Idle);
}

#[test]
fn a_failed_completion_is_asked_for_again_after_thirty_seconds() {
    let mut c = context(&vec![], None);
    let mut sink: Vec<String> = Vec::new();
    say(&mut c, &mut sink, "hi".to_owned());
    let before = c.messages.len();
    match c.completion_failed(NahError::model_invalid_response("m1", Some("reset".to_owned()))) {
        TurnAction::RetryCompletion { wait_seconds } => assert_eq!(wait_seconds, 30),
        other => panic!("{:?}", other),
    }
    assert_eq!(c.phase, TurnPhase::AwaitingCompletion);
    assert_eq!(c.messages.len(), before);
    assert!(matches!(
        c.completion_failed(NahError::mcp_server_timeout("m1", None)),
        TurnAction::RetryCompletion { wait_seconds: 30 }
    ));
    assert_eq!(c.phase, TurnPhase::AwaitingCompletion);
}

#[test]
fn a_non_success_status_of_the_model_ends_the_turn() {
    let mut c = context(&vec![], None);
    let mut sink: Vec<String> = Vec::new();
    say(&mut c, &mut sink, "hi".to_owned());
    let e = check_completion_status("m1", 500, "boom").unwrap_err();
    assert_eq!(e.code, 101);
    match c.completion_failed(e) {
        TurnAction::Abort(e) => {
            assert_eq!(e.code, 101);
            assert_eq!(
                e.message,
                "Error from model m1: Model server responded with error: HTTP status 500, error message = boom"
            );
        }
        other => panic!("{:?}", other),
    }
    assert_eq!(c.phase, TurnPhase::Idle);
    assert_eq!(c.messages.len(), 1);
    assert_eq!(sink.len(), 1);
}

#[test]
fn a_message_with_an_empty_list_of_calls_asks_for_a_new_completion() {
    let mut c = context(&vec![], None);
    let mut sink: Vec<String> = Vec::new();
    say(&mut c, &mut sink, "hi".to_owned());
    assert!(matches!(
        complete(&mut c, &mut sink, assistant("", Some(vec![]))),
        TurnAction::RequestCompletion
    ));
    assert_eq!(c.phase, TurnPhase::AwaitingCompletion);
    assert_eq!(c.messages.len(), 2);
}

#[test]
fn the_request_carries_the_history_and_the_tools() {
    let foo = tool(FOO);
    let mut c = context(&vec![&foo], Some("sys"));
    let mut sink: Vec<String> = Vec::new();
    say(&mut c, &mut sink, "hi".to_owned());
    let body = c.get_generate_request();
    assert_eq!(body.get("model").unwrap().as_str(), Some("m1"));
    assert_eq!(body.get("stream").unwrap().as_bool(), Some(true));
    assert_eq!(body.get("messages").unwrap().as_array().unwrap().len(), 2);
    let tools = body.get("tools").unwrap().as_array().unwrap();
    assert_eq!(
        tools[0].get("function").unwrap().get("name").unwrap().as_str(),
        Some("serverA.foo")
    );
}
