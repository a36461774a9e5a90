use cursor_server::json::Json;
use cursor_server::model::ToolCall;
use cursor_server::stream::{normalized, McpToolDefinition, NewlineStream, ServerMessage, ToolCallStream};

fn call(name: &str) -> ToolCall {
    ToolCall {
        index: 0,
        call_id: "call-1".into(),
        model_call_id: "model-1".into(),
        name: name.into(),
        arguments_text: String::new(),
        arguments: Json::Null,
    }
}

fn edit_delta(message: &ServerMessage) -> &str {
    let ServerMessage::EditContentDelta { content, .. } = message else {
        panic!("expected EditContentDelta")
    };
    content
}

#[test]
fn plain_tools_only_project_raw_argument_deltas() {
    let call = call("Read");
    let mut stream = ToolCallStream::new(&call.name, None);
    assert_eq!(
        stream.arguments_delta(&call, "{\"path\":").unwrap().len(),
        1
    );
}

#[test]
fn write_projects_path_and_content_without_starting_execution() {
    let call = call("Write");
    let mut stream = ToolCallStream::new(&call.name, None);
    let first = stream
        .arguments_delta(&call, "{\"path\":\"/tmp/a\",\"contents\":\"hel")
        .unwrap();
    assert_eq!(first.len(), 2);
    assert!(matches!(first[0], ServerMessage::EditPath { .. }));
    assert_eq!(edit_delta(&first[1]), "hel");

    let second = stream.arguments_delta(&call, "lo\\n世界\"}").unwrap();
    assert_eq!(second.len(), 1);
    assert_eq!(edit_delta(&second[0]), "lo\n世界");
}

#[test]
fn str_replace_projects_only_new_string_when_path_arrives_later() {
    let call = call("StrReplace");
    let mut stream = ToolCallStream::new(&call.name, None);
    let first = stream
        .arguments_delta(&call, "{\"new_string\":\"new\",\"old_string\":\"old\",")
        .unwrap();
    assert_eq!(first.len(), 1);
    assert_eq!(edit_delta(&first[0]), "new");
    let second = stream
        .arguments_delta(&call, "\"path\":\"/tmp/a\"}")
        .unwrap();
    assert_eq!(second.len(), 1);
    assert!(matches!(second[0], ServerMessage::EditPath { .. }));
}

#[test]
fn edit_stream_normalizes_split_crlf_once() {
    let call = call("Write");
    let mut stream = ToolCallStream::new(&call.name, None);
    let first = stream
        .arguments_delta(&call, "{\"contents\":\"a\\r")
        .unwrap();
    let second = stream
        .arguments_delta(&call, "\\nb\\r\",\"path\":\"/tmp/a\"}")
        .unwrap();
    assert_eq!(edit_delta(&first[0]), "a");
    assert_eq!(edit_delta(&second[0]), "\nb");
    assert_eq!(edit_delta(&second[1]), "\n");
}

#[test]
fn create_plan_projects_completed_fields_as_structured_partial_args() {
    let call = call("CreatePlan");
    let mut stream = ToolCallStream::new(&call.name, None);
    let name = stream
        .arguments_delta(&call, "{\"name\":\"Migration Plan\",\"plan\":\"# Move")
        .unwrap();
    assert_eq!(name.len(), 1);

    let messages = stream
        .arguments_delta(
            &call,
            " services\",\"overview\":\"Move the services safely\",\"todos\":[]}",
        )
        .unwrap();
    assert_eq!(messages.len(), 1);
    let ServerMessage::CreatePlanPartial { name, plan, overview, .. } = &messages[0] else {
        panic!("expected CreatePlanPartial")
    };
    assert_eq!(name, "Migration Plan");
    assert_eq!(plan, "# Move services");
    assert_eq!(overview, "Move the services safely");
}

#[test]
fn edit_path_announced_once_complete() {
    let call = call("Write");
    let mut stream = ToolCallStream::new(&call.name, None);
    let first = stream.arguments_delta(&call, "{\"pa").unwrap();
    assert!(first.is_empty());
    let second = stream.arguments_delta(&call, "th\":\"/tmp/").unwrap();
    assert!(second.is_empty());
    let third = stream.arguments_delta(&call, "b.txt\"").unwrap();
    assert_eq!(third.len(), 1);
    let ServerMessage::EditPath { path, call_id } = &third[0] else {
        panic!("expected EditPath")
    };
    assert_eq!(path, "/tmp/b.txt");
    assert_eq!(call_id, "call-1");
}

#[test]
fn edit_content_decodes_escapes_split_across_chunks() {
    let call = call("Write");
    let mut stream = ToolCallStream::new(&call.name, None);
    let first = stream.arguments_delta(&call, "{\"contents\":\"x\\").unwrap();
    assert_eq!(first.len(), 1);
    assert_eq!(edit_delta(&first[0]), "x");
    let second = stream.arguments_delta(&call, "u00e9\\ud83d").unwrap();
    assert_eq!(edit_delta(&second[0]), "é");
    let third = stream.arguments_delta(&call, "\\ude00\"").unwrap();
    assert_eq!(edit_delta(&third[0]), "😀");
}

#[test]
fn edit_arguments_that_are_not_an_object_fail() {
    let call = call("Write");
    let mut stream = ToolCallStream::new(&call.name, None);
    assert!(stream.arguments_delta(&call, "[1]").is_err());
    assert!(stream.arguments_delta(&call, "{}").is_err());
}

#[test]
fn nested_values_are_skipped() {
    let call = call("StrReplace");
    let mut stream = ToolCallStream::new(&call.name, None);
    let messages = stream
        .arguments_delta(&call, "{\"meta\":{\"new_string\":\"no\",\"x\":[1,\"]\"]},\"count\":3,\"new_string\":\"yes\"}")
        .unwrap();
    assert_eq!(messages.len(), 1);
    assert_eq!(edit_delta(&messages[0]), "yes");
}

#[test]
fn dynamic_mcp_tools_forward_raw_deltas() {
    let call = call("Write");
    let definition = McpToolDefinition {
        name: "write".into(),
        provider_identifier: "server".into(),
        tool_name: "write".into(),
    };
    let mut stream = ToolCallStream::new(&call.name, Some(&definition));
    let messages = stream.arguments_delta(&call, "{\"path\"").unwrap();
    assert_eq!(messages.len(), 1);
    let ServerMessage::McpArgumentsDelta { delta, provider_identifier, .. } = &messages[0] else {
        panic!("expected McpArgumentsDelta")
    };
    assert_eq!(delta, "{\"path\"");
    assert_eq!(provider_identifier, "server");
}

#[test]
fn tool_names_normalize_case_and_punctuation() {
    assert_eq!(normalized("Str_Replace"), "strreplace");
    assert_eq!(normalized("Edit-Notebook 2"), "editnotebook2");
    assert_eq!(normalized("ÉcrireTool"), "crire".to_string() + "tool");
}

#[test]
fn newline_stream_is_independent_of_chunking() {
    let text = "a\r\nb\rc\r\r\nd\r";
    let mut whole = NewlineStream::new();
    let expected = whole.push(text, true);
    assert_eq!(expected, "a\nb\nc\n\nd\n");
    for split in 0..=text.len() {
        if !text.is_char_boundary(split) {
            continue;
        }
        let mut parts = NewlineStream::new();
        let mut out = parts.push(&text[..split], false);
        out.push_str(&parts.push(&text[split..], true));
        assert_eq!(out, expected);
    }
}

fn streamed_edit(chunks: &[&str]) -> (String, Vec<String>) {
    let call = call("Write");
    let mut stream = ToolCallStream::new(&call.name, None);
    let mut content = String::new();
    let mut paths = Vec::new();
    for chunk in chunks {
        for message in stream.arguments_delta(&call, chunk).unwrap() {
            match message {
                ServerMessage::EditContentDelta { content: delta, .. } => content.push_str(&delta),
                ServerMessage::EditPath { path, .. } => paths.push(path),
                other => panic!("unexpected {other:?}"),
            }
        }
    }
    (content, paths)
}

#[test]
fn edit_streams_do_not_depend_on_chunking() {
    let text = "{\"contents\":\"a\\r\\nb\\u00e9\\ud83d\\ude00\\r\",\"path\":\"/tmp/x\"}";
    let expected = streamed_edit(&[text]);
    assert_eq!(expected.0, "a\nbé😀\n");
    assert_eq!(expected.1, vec!["/tmp/x".to_string()]);
    for split in 0..=text.len() {
        let (left, right) = text.split_at(split);
        assert_eq!(streamed_edit(&[left, right]), expected);
    }
}

#[test]
fn plan_fields_do_not_depend_on_chunking() {
    let text = "{\"name\":\"N\",\"plan\":\"P \\\"q\\\"\",\"overview\":\"O\"}";
    let last_partial = |chunks: &[&str]| {
        let call = call("CreatePlan");
        let mut stream = ToolCallStream::new(&call.name, None);
        let mut last = None;
        for chunk in chunks {
            for message in stream.arguments_delta(&call, chunk).unwrap() {
                if let ServerMessage::CreatePlanPartial { name, plan, overview, .. } = message {
                    last = Some((name, plan, overview));
                }
            }
        }
        last
    };
    let expected = last_partial(&[text]);
    assert_eq!(
        expected,
        Some(("N".to_string(), "P \"q\"".to_string(), "O".to_string()))
    );
    for split in 0..=text.len() {
        let (left, right) = text.split_at(split);
        assert_eq!(last_partial(&[left, right]), expected);
    }
}

#[test]
fn newline_stream_over_many_chunks_normalizes_the_whole_text() {
    let chunks = ["a\r", "\r", "\nb\r", "", "c\r\n\r"];
    let mut stream = NewlineStream::new();
    let mut out = String::new();
    for (index, chunk) in chunks.iter().enumerate() {
        out.push_str(&stream.push(chunk, index + 1 == chunks.len()));
    }
    let whole: String = chunks.concat();
    assert_eq!(out, whole.replace("\r\n", "\n").replace('\r', "\n"));
    assert!(!out.contains('\r'));
}
