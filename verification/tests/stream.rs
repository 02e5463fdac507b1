use warp_ai::events::{
    build_add_message_event, build_agent_message, build_create_task_event,
    build_tool_call_message, ClientAction, Message, MessageContent, ResponseEvent,
};
use warp_ai::json::parse_json;
use warp_ai::stream::{extract_sse_data, ProviderStream, StreamStep};
use warp_ai::tools::{
    extract_tool_call, merge_tool_call, tool_from_arguments, ProviderToolCall, Tool,
};

fn call(id: &str, name: &str, arguments: &str) -> ProviderToolCall {
    ProviderToolCall {
        id: id.to_string(),
        name: name.to_string(),
        arguments: arguments.to_string(),
    }
}

fn stream(responses_api: bool) -> ProviderStream {
    ProviderStream::new(responses_api, "task".to_string(), "message".to_string())
}

fn messages(event: ResponseEvent) -> Vec<Message> {
    match event {
        ResponseEvent::ClientActions { mut actions } => match actions.remove(0) {
            ClientAction::AddMessagesToTask { task_id, messages } => {
                assert_eq!(task_id, "task");
                assert!(actions.is_empty());
                messages
            }
            _ => panic!("other action"),
        },
        _ => panic!("other event"),
    }
}

fn text(step: StreamStep) -> String {
    let StreamStep::Message(event) = step else { panic!("no message") };
    let mut messages = messages(event);
    assert_eq!(messages.len(), 1);
    let message = messages.remove(0);
    assert_eq!(message.id, "message");
    match message.content {
        MessageContent::AgentOutput { text } => text,
        _ => panic!("no text"),
    }
}

#[test]
fn data_is_taken_block_by_block() {
    let mut buffer = ": comment\n\ndata: one\ndata:two \nevent: x\n\ndata:\n\n data: three\n\nda".to_string();
    assert_eq!(extract_sse_data(&mut buffer).as_deref(), Some("one\ntwo"));
    assert_eq!(extract_sse_data(&mut buffer).as_deref(), Some("three"));
    assert_eq!(extract_sse_data(&mut buffer), None);
    assert_eq!(buffer, "da");
}

#[test]
fn carriage_returns_end_blocks_too() {
    let mut buffer = "data: one\r\ndata: two\r\n\r\ndata: three\r\n\r\n".to_string();
    assert_eq!(extract_sse_data(&mut buffer).as_deref(), Some("one\ntwo"));
    assert_eq!(extract_sse_data(&mut buffer).as_deref(), Some("three"));
    assert_eq!(buffer, "");
    // A plain empty line is looked for first.
    let mut mixed = "data: one\r\n\r\ndata: two\n\n".to_string();
    assert_eq!(extract_sse_data(&mut mixed).as_deref(), Some("one\ntwo"));
}

#[test]
fn chat_completions_add_up() {
    let mut s = stream(false);
    assert_eq!(s.advance(), StreamStep::NeedBytes);
    s.push_text("data: {\"choices\": [{\"delta\": {\"content\": \"Hel\"}}]}\n\n");
    s.push_text("data: {\"choices\": [{\"delta\": {\"content\": null}}]}\n\ndata: not JSON\n\n");
    assert_eq!(s.advance(), StreamStep::NeedBytes);
    s.push_text("data: {\"choices\": {\"0\": {\"delta\": {\"content\": \"lo\"}}}}\n\n");
    // What ends the other API's answers is nothing special here.
    s.push_text("data: {\"type\": \"response.completed\"}\n\n");
    s.push_text("data: [DONE]\n\ndata: {\"choices\": [{\"delta\": {\"content\": \"late\"}}]}\n\n");
    assert_eq!(text(s.advance()), "Hello");
    assert_eq!(s.advance(), StreamStep::Ended);
    assert_eq!(s.end_of_input(), StreamStep::Ended);
}

#[test]
fn responses_add_up() {
    for end in ["response.completed", "response.incomplete", "response.failed"] {
        let mut s = stream(true);
        s.push_text("data: {\"type\": \"response.output_text.delta\", \"delta\": \"a\"}\n\n");
        s.push_text("data: {\"delta\": \"b\"}\n\ndata: {\"delta\": 3}\n\n");
        s.push_text("data: {\"choices\": [{\"delta\": {\"content\": \"no\"}}]}\n\n");
        s.push_text(&format!("data: {{\"type\": \"{end}\", \"delta\": \"x\"}}\n\n"));
        assert_eq!(text(s.advance()), "ab");
        assert_eq!(s.advance(), StreamStep::Ended);
    }
}

#[test]
fn the_end_of_input_completes_an_answer() {
    let mut s = stream(true);
    s.push_text("data: {\"delta\": \"a\"}\n\ndata: {\"delta\": \"unfinished\"}");
    assert_eq!(s.advance(), StreamStep::NeedBytes);
    assert_eq!(text(s.end_of_input()), "a");
    assert_eq!(s.advance(), StreamStep::Ended);
}

#[test]
fn pieces_of_an_answer_may_be_cut_anywhere() {
    let whole = "data: {\"delta\": \"a\"}\n\ndata: {\"delta\": \"b\"}\n\ndata: [DONE]\n\n";
    for cut in 0..whole.len() {
        let mut s = stream(true);
        s.push_bytes(&whole.as_bytes()[..cut]);
        assert_eq!(s.advance(), StreamStep::NeedBytes);
        s.push_bytes(&whole.as_bytes()[cut..]);
        assert_eq!(text(s.advance()), "ab");
    }
    // Where the kinds of line ends are mixed, a cut can tell blocks apart that are one otherwise.
    let (first, second) = ("data: {\"delta\": \"a\"}\r\n\r\n", "data: {\"delta\": \"b\"}\n\n");
    let mut s = stream(true);
    s.push_text(first);
    s.advance();
    s.push_text(second);
    s.advance();
    assert_eq!(text(s.end_of_input()), "ab");
    let mut s = stream(true);
    s.push_text(first);
    s.push_text(second);
    s.advance();
    assert_eq!(text(s.end_of_input()), "");
}

#[test]
fn invalid_bytes_are_replaced() {
    let mut s = stream(true);
    s.push_bytes(b"data: {\"delta\": \"\xc3\xa9\xff\"}\n\n");
    s.advance();
    assert_eq!(text(s.end_of_input()), "é\u{fffd}");
}

#[test]
fn tool_calls_take_the_place_of_text() {
    let mut s = stream(false);
    s.push_text("data: {\"choices\": [{\"delta\": {\"content\": \"thinking\"}}]}\n\n");
    s.push_text("data: {\"choices\": [{\"delta\": {\"tool_calls\": [{\"id\": \"c1\", \"function\": {\"name\": \"grep\", \"arguments\": \"{\\\"queries\\\":\"}}]}}]}\n\n");
    s.push_text("data: {\"choices\": [{\"delta\": {\"tool_calls\": [{\"function\": {\"arguments\": \" [\\\"x\\\"], \\\"path\\\": \\\".\\\"}\"}}]}}]}\n\n");
    s.push_text("data: {\"choices\": [{\"delta\": {\"tool_calls\": [{\"id\": \"c2\", \"function\": {\"name\": \"nothing\", \"arguments\": \"{}\"}}]}}]}\n\n");
    s.push_text("data: [DONE]\n\n");
    let StreamStep::Message(event) = s.advance() else { panic!("no message") };
    let messages = messages(event);
    assert_eq!(messages.len(), 1);
    assert_eq!(messages[0].task_id, "task");
    assert_eq!(messages[0].id.len(), 36);
    assert_eq!(
        messages[0].content,
        MessageContent::ToolCall {
            tool_call_id: "c1".to_string(),
            tool: Tool::Grep { queries: vec!["x".to_string()], path: ".".to_string() },
        }
    );
}

#[test]
fn calls_are_read_from_responses_chunks() {
    let read = |text: &str| extract_tool_call(&parse_json(text).unwrap(), true);
    assert_eq!(
        read(r#"{"type": "response.function_call_arguments.done", "call_id": "c", "name": "grep", "arguments": "{}"}"#),
        Some(call("c", "grep", "{}"))
    );
    assert_eq!(
        read(r#"{"type": "response.output_item.done", "item": {"type": "function_call", "call_id": "c", "name": "n", "arguments": "a"}}"#),
        Some(call("c", "n", "a"))
    );
    assert_eq!(read(r#"{"type": "response.function_call_arguments.done", "call_id": "c"}"#), None);
    assert_eq!(read(r#"{"type": "response.output_item.done", "item": {"type": "message"}}"#), None);
    assert_eq!(read(r#"{"call_id": "c", "name": "grep", "arguments": "{}"}"#), None);
}

#[test]
fn calls_are_read_from_completions_chunks() {
    let read = |text: &str| extract_tool_call(&parse_json(text).unwrap(), false);
    assert_eq!(
        read(r#"{"choices": [{"delta": {"tool_calls": [{"id": "c", "function": {"name": "n"}}]}}]}"#),
        Some(call("c", "n", ""))
    );
    assert_eq!(
        read(r#"{"choices": [{"delta": {"tool_calls": [{"function": 1}]}}]}"#),
        Some(call("", "", ""))
    );
    assert_eq!(read(r#"{"choices": [{"delta": {"tool_calls": [{"id": "c"}]}}]}"#), None);
    assert_eq!(read(r#"{"choices": []}"#), None);
}

#[test]
fn calls_are_merged() {
    let mut calls = vec![];
    merge_tool_call(&mut calls, call("", "", ""));
    assert!(calls.is_empty());
    merge_tool_call(&mut calls, call("a", "grep", "{"));
    merge_tool_call(&mut calls, call("", "", "1"));
    merge_tool_call(&mut calls, call("b", "", "x"));
    merge_tool_call(&mut calls, call("a", "other", "}"));
    merge_tool_call(&mut calls, call("b", "named", "y"));
    merge_tool_call(&mut calls, call("", "", "z"));
    assert_eq!(calls, vec![call("a", "grep", "{1}"), call("b", "named", "xyz")]);
}

#[test]
fn calls_without_an_id_go_by_their_number_or_name() {
    // Arguments that come first open a call of their own.
    let mut calls = vec![];
    merge_tool_call(&mut calls, call("", "", "early"));
    assert_eq!(calls, vec![call("", "", "early")]);
    // A name that is known belongs to the call without an id.
    let mut calls = vec![call("", "grep", "{")];
    merge_tool_call(&mut calls, call("id", "grep", "}"));
    assert_eq!(calls, vec![call("id", "grep", "{}")]);
    // A call with neither is looked for under the number of calls.
    let mut calls = vec![call("1", "", "a")];
    merge_tool_call(&mut calls, call("", "grep", "b"));
    assert_eq!(calls, vec![call("1", "grep", "ab")]);
    let mut calls = vec![call("x", "grep", "a")];
    merge_tool_call(&mut calls, call("", "grep", "b"));
    assert_eq!(calls, vec![call("x", "grep", "a"), call("", "grep", "b")]);
}

#[test]
fn tools_are_understood() {
    let tool = |name: &str, args: &str| tool_from_arguments(name, &parse_json(args).unwrap());
    assert_eq!(
        tool("read_files", r#"{"files": [{"name": "a"}, {"path": "b"}, "c", {"name": "d"}]}"#),
        Some(Tool::ReadFiles { files: vec!["a".to_string(), "d".to_string()] })
    );
    assert_eq!(tool("read_files", r#"{"files": "a"}"#), None);
    assert_eq!(
        tool("grep", r#"{"queries": ["a", 1], "path": "p"}"#),
        Some(Tool::Grep { queries: vec!["a".to_string()], path: "p".to_string() })
    );
    assert_eq!(tool("grep", r#"{"queries": ["a"]}"#), None);
    assert_eq!(
        tool("file_glob", r#"{"patterns": ["*.rs"], "path": "src"}"#),
        Some(Tool::FileGlobV2 {
            patterns: vec!["*.rs".to_string()],
            search_dir: "src".to_string(),
        })
    );
    assert_eq!(
        tool("run_shell_command", r#"{"command": "ls", "is_read_only": true}"#),
        Some(Tool::RunShellCommand { command: "ls".to_string(), is_read_only: true })
    );
    assert_eq!(
        tool("run_shell_command", r#"{"command": "ls", "is_read_only": "yes"}"#),
        Some(Tool::RunShellCommand { command: "ls".to_string(), is_read_only: false })
    );
    assert_eq!(tool("run_shell_command", "{}"), None);
    assert_eq!(tool("unknown", "{}"), None);
}

#[test]
fn events_are_built() {
    assert_eq!(
        build_create_task_event("t"),
        ResponseEvent::ClientActions {
            actions: vec![ClientAction::CreateTask { task_id: "t".to_string() }],
        }
    );
    let message = build_agent_message("t", "m", "hello");
    assert_eq!((message.id.as_str(), message.task_id.as_str()), ("m", "t"));
    assert!(build_tool_call_message("t", &call("c", "grep", "no JSON")).is_none());
    let messages = messages(build_add_message_event(
        "task",
        "m",
        "dropped",
        &vec![call("c", "grep", "no JSON")],
    ));
    assert!(messages.is_empty());
}

#[test]
fn data_can_be_read_with_its_document() {
    let mut s = stream(true);
    let document = parse_json(r#"{"delta": "x"}"#).unwrap();
    s.read_data("ignored", Some(&document));
    s.read_data("no JSON", None);
    assert_eq!(s.output_text, "x");
    s.read_data("[DONE]", None);
    assert!(s.completed);
}
