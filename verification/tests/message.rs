use nah::message::{
    ChatMessage, ChatResponseChunkDelta, FunctionCallRequestChunkDelta, ToolCallRequestChunkDelta,
};

#[test]
fn test_apply_text_and_reasoning_content_chunk() {
    let mut message = ChatMessage {
        role: "assistant".to_owned(),
        content: "A".to_owned(),
        reasoning_content: None,
        tool_call_id: None,
        tool_calls: None,
    };

    message.apply_model_response_chunk(ChatResponseChunkDelta {
        role: Some("assistant".to_owned()),
        content: Some(" test".to_owned()),
        reasoning_content: Some("reason".to_owned()),
        tool_calls: None,
    });

    assert_eq!(message.role, "assistant");
    assert_eq!(message.content, "A test");
    assert_eq!(message.reasoning_content.unwrap(), "reason");
}

#[test]
fn test_apply_tool_calls() {
    let mut message = ChatMessage {
        role: "assistant".to_owned(),
        content: "A".to_owned(),
        reasoning_content: None,
        tool_call_id: None,
        tool_calls: None,
    };

    message.apply_model_response_chunk(ChatResponseChunkDelta {
        role: None,
        content: None,
        reasoning_content: None,
        tool_calls: Some(vec![ToolCallRequestChunkDelta {
            index: 0,
            id: Some("123".to_owned()),
            _type: Some("function".to_owned()),
            function: Some(FunctionCallRequestChunkDelta {
                name: Some("x".to_owned()),
                arguments: None,
            }),
        }]),
    });
    assert_eq!(message.role, "assistant");
    {
        let tool_calls = message.tool_calls.as_ref().unwrap();
        assert_eq!(tool_calls[0].id, "123");
        assert_eq!(tool_calls[0].function.name, "x");
    }

    message.apply_model_response_chunk(ChatResponseChunkDelta {
        role: None,
        content: None,
        reasoning_content: None,
        tool_calls: Some(vec![ToolCallRequestChunkDelta {
            index: 0,
            id: None,
            _type: None,
            function: Some(FunctionCallRequestChunkDelta {
                name: Some("yz".to_owned()),
                arguments: Some("{\"a".to_owned()),
            }),
        }]),
    });
    {
        let tool_calls = message.tool_calls.as_ref().unwrap();
        assert_eq!(tool_calls[0].id, "123");
        assert_eq!(tool_calls[0].function.name, "xyz");
        assert_eq!(tool_calls[0].function.arguments, "{\"a");
    }
}

#[test]
fn a_fragment_with_a_gap_grows_the_list_with_placeholders() {
    let mut message = ChatMessage::new();
    message.apply_model_response_chunk(ChatResponseChunkDelta {
        role: Some("assistant".to_owned()),
        content: None,
        reasoning_content: None,
        tool_calls: Some(vec![ToolCallRequestChunkDelta {
            index: 2,
            id: Some("c".to_owned()),
            _type: None,
            function: None,
        }]),
    });
    let calls = message.tool_calls.as_ref().unwrap();
    assert_eq!(calls.len(), 3);
    assert_eq!(calls[0].id, "");
    assert_eq!(calls[1].function.name, "");
    assert_eq!(calls[2].id, "c");
    assert_eq!(calls[2]._type, "");
    assert_eq!(message.content, "");
    assert!(message.reasoning_content.is_none());
}

#[test]
fn reasoning_fragments_are_appended() {
    let mut message = ChatMessage::new();
    for part in ["think", "ing"] {
        message.apply_model_response_chunk(ChatResponseChunkDelta {
            role: None,
            content: None,
            reasoning_content: Some(part.to_owned()),
            tool_calls: None,
        });
    }
    assert_eq!(message.reasoning_content.as_deref(), Some("thinking"));
    assert_eq!(message.role, "");
}

#[test]
fn a_run_of_updates_is_applied_in_order() {
    let delta = |content: &str| ChatResponseChunkDelta {
        role: None,
        content: Some(content.to_owned()),
        reasoning_content: None,
        tool_calls: None,
    };
    let m = ChatMessage::from_deltas(vec![delta("a"), delta("b"), delta("c")]);
    assert_eq!(m.content, "abc");
    let mut n = ChatMessage::default();
    assert_eq!(n.content, "");
    n.extend(vec![delta("x")]);
    n.extend(vec![]);
    assert_eq!(n.content, "x");
}
