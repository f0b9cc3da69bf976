use nah::command::{
    argument_file_name, drop_quotes, load_json_arguments, prompt_argument_template,
    prompt_arguments, split_command_into_parts, strip_comment_lines, tool_argument_template,
    user_message_from_draft,
};
use nah::definitions::MCPPromptArgument;
use nah::codec::parse;

fn parts(s: &str) -> Vec<String> {
    split_command_into_parts(s)
}

#[test]
fn a_command_is_cut_at_white_space() {
    assert_eq!(parts("use weather"), vec!["use", "weather"]);
    assert_eq!(parts("  call_tool \t foo  "), vec!["call_tool", "foo"]);
    assert_eq!(parts(""), Vec::<String>::new());
    assert_eq!(parts(" \t\n"), Vec::<String>::new());
    assert_eq!(parts("exit"), vec!["exit"]);
    assert_eq!(parts("a\u{000B}b"), vec!["a\u{000B}b"]);
    assert_eq!(parts("a\u{000C}b"), vec!["a", "b"]);
}

#[test]
fn a_quoted_part_keeps_its_quotes_and_its_white_space() {
    assert_eq!(parts("get_prompt \"my prompt\""), vec!["get_prompt", "\"my prompt\""]);
    assert_eq!(parts("\"a b\"c d"), vec!["\"a b\"", "c", "d"]);
    assert_eq!(parts("x \"a \\\" b\" y"), vec!["x", "\"a \\\" b\"", "y"]);
    assert_eq!(parts("x \"open end"), vec!["x", "\"open end"]);
    assert_eq!(parts("ab\"c d\""), vec!["ab\"c", "d\""]);
}

#[test]
fn quotes_are_taken_off() {
    assert_eq!(drop_quotes("plain"), "plain");
    assert_eq!(drop_quotes(""), "");
    assert_eq!(drop_quotes("\"my prompt\""), "my prompt");
    assert_eq!(drop_quotes("\"a \\\" b\""), "a \" b");
    assert_eq!(drop_quotes("\"a\\nb\""), "anb");
    assert_eq!(drop_quotes("\"stop\"here"), "stop");
    assert_eq!(drop_quotes("\"open"), "open");
    assert_eq!(drop_quotes("a\"b\""), "a\"b\"");
}

#[test]
fn comment_lines_are_taken_out_of_an_argument_file() {
    let text = "// Please fill\n  // indented comment\n{\n  \"bar\": \"x\" // kept\n}\n";
    assert_eq!(strip_comment_lines(text), "{  \"bar\": \"x\" // kept}");
    let j = load_json_arguments("// c\n{\"bar\":\n\"x\"}\n").unwrap();
    assert_eq!(j.get("bar").unwrap().as_str(), Some("x"));
    let e = load_json_arguments("// only a comment\n").unwrap_err();
    assert_eq!(e.code, 10);
    assert_eq!(e.message, "Failed to load arguments: Provided argument is invalid in JSON Format");
}

#[test]
fn a_drafted_message_loses_its_hash_lines() {
    assert_eq!(
        user_message_from_draft("# Draft your message here.\nhello\n #kept\nworld"),
        "hello\n #kept\nworld\n"
    );
    assert_eq!(user_message_from_draft(""), "\n");
    assert_eq!(user_message_from_draft("#\n"), "\n");
}

#[test]
fn the_prompt_template_lists_the_arguments() {
    let args = vec![
        MCPPromptArgument { name: "topic".to_owned(), description: None, required: Some(true) },
        MCPPromptArgument { name: "tone".to_owned(), description: None, required: None },
    ];
    assert_eq!(
        prompt_argument_template(&args),
        "// Please fill arguments for prompt call here in JSON format \n// Lines starts with '//' will be removed\n{\n    \"topic\": \"<FILL ARGUMENT HERE>\",\n    \"tone\": \"<FILL ARGUMENT HERE>\"\n}\n"
    );
    assert_eq!(
        tool_argument_template("{}"),
        "// Please fill arguments for tool call here in JSON format. \n// Lines starts with '//' will be removed\n{}"
    );
    assert_eq!(argument_file_name("foo"), ".nah_req.foo.args.js");
}

#[test]
fn prompt_arguments_are_the_texts_of_an_object() {
    let pairs = prompt_arguments(&parse("{\"b\":\"2\",\"a\":\"1\",\"n\":3}").unwrap()).unwrap();
    assert_eq!(
        pairs,
        vec![
            ("a".to_owned(), "1".to_owned()),
            ("b".to_owned(), "2".to_owned()),
            ("n".to_owned(), "".to_owned()),
        ]
    );
    let e = prompt_arguments(&parse("[1]").unwrap()).unwrap_err();
    assert_eq!(e.code, 10);
    assert_eq!(e.message, "Failed to load arguments: Arguments should be a JSON Object!");
}

#[test]
fn only_y_is_consent() {
    for (answer, consent) in [("y\n", true), ("Y", true), ("  y \r\n", true), ("yes", false), ("n", false), ("", false), ("\n", false), ("yy", false)] {
        assert_eq!(nah::command::is_consent(answer), consent);
    }
}

#[test]
fn the_prompt_names_the_current_server() {
    assert_eq!(nah::command::shell_prompt(&None), ">> ");
    assert_eq!(nah::command::shell_prompt(&Some("weather".to_owned())), "[weather] >> ");
}
