use warp_ai::chat::{
    build_chat_request, chat_headers, chat_url, codex_headers, direct_tool_definitions,
    prepare_call,
};
use warp_ai::direct::{
    check_local_status, endpoint_for, extract_messages, find_local_endpoint, is_chatgpt_endpoint,
    is_direct_endpoint, is_opencode_endpoint, open_stream, should_use_direct_local, start_stream,
    AnswerStep, ChatMessage, FreshIds, HistoryMessage, LocalEndpoint, ModelConfig, Request, Role, Settings,
    Task, UserInput,
};
use warp_ai::endpoint::CustomEndpointSchema;
use warp_ai::events::{ClientAction, MessageContent, ResponseEvent};
use warp_ai::json::{items, member, parse_json, text_member, Json};
use warp_ai::request::{CustomModel, CustomModelProvider};
use warp_ai::tools::tool_from_arguments;

fn provider(url: &str, models: &[(&str, &str)]) -> CustomModelProvider {
    CustomModelProvider {
        base_url: url.to_string(),
        api_key: format!("key of {url}"),
        schema: CustomEndpointSchema::OpenaiChatCompletions,
        models: models
            .iter()
            .map(|(slug, key)| CustomModel { slug: slug.to_string(), config_key: key.to_string() })
            .collect(),
    }
}

fn request(selected: &str, providers: Vec<CustomModelProvider>) -> Request {
    Request {
        settings: Some(Settings {
            model_config: Some(ModelConfig { base: selected.to_string() }),
            custom_model_providers: Some(providers),
        }),
        tasks: None,
        inputs: None,
        conversation_id: None,
    }
}

fn empty_request() -> Request {
    Request { settings: None, tasks: None, inputs: None, conversation_id: None }
}

fn task(id: &str, parent: Option<&str>, messages: Vec<HistoryMessage>) -> Task {
    Task { id: id.to_string(), parent_task_id: parent.map(str::to_string), messages }
}

fn chat(request: &Request) -> Vec<(Role, String)> {
    extract_messages(request).into_iter().map(|m| (m.role, m.content)).collect()
}

fn ids() -> FreshIds {
    FreshIds {
        request_id: "request".to_string(),
        task_id: "fresh".to_string(),
        message_id: "message".to_string(),
    }
}

fn endpoint(url: &str) -> LocalEndpoint {
    LocalEndpoint {
        base_url: url.to_string(),
        model_slug: "m".to_string(),
        api_key: "secret".to_string(),
    }
}

#[test]
fn direct_endpoints_are_recognised() {
    for url in [
        "http://127.0.0.1:8080",
        "http://localhost",
        "http://0.0.0.0:1",
        "http://192.168.1.1",
        "http://10.1.2.3/v1",
        " https://chatgpt.com/backend-api/codex// ",
        "https://chatgpt.com/backend-api/codex/x",
        "https://opencode.ai/zen/v1",
    ] {
        assert!(is_direct_endpoint(url), "{url}");
    }
    for url in [
        "https://localhost",
        " http://localhost",
        "http://example.com",
        "https://chatgpt.com/backend-api/codexx",
        "https://opencode.ai/zen/",
    ] {
        assert!(!is_direct_endpoint(url), "{url}");
    }
    assert!(is_chatgpt_endpoint("https://chatgpt.com/backend-api/codex/"));
    assert!(!is_opencode_endpoint("https://opencode.ai/zen"));
}

#[test]
fn the_selected_model_decides() {
    let providers = || {
        vec![
            provider("https://api.example.com", &[("far", "k")]),
            provider("http://localhost:1", &[("other", "x")]),
            provider("http://localhost:2", &[("one", "k"), ("two", "k")]),
            provider("http://localhost:3", &[("three", "k")]),
        ]
    };
    let selected = request("k", providers());
    assert!(should_use_direct_local(&selected));
    let found = find_local_endpoint(&selected).unwrap();
    assert_eq!(found.base_url, "http://localhost:2");
    assert_eq!(found.model_slug, "one");
    assert_eq!(found.api_key, "key of http://localhost:2");
    assert_eq!(endpoint_for(&selected), found);

    let unknown = request("unknown", providers());
    assert!(!should_use_direct_local(&unknown));
    assert!(find_local_endpoint(&unknown).is_none());
    assert!(!should_use_direct_local(&empty_request()));
    let mut unselected = request("", vec![provider("http://localhost", &[("m", "")])]);
    unselected.settings.as_mut().unwrap().model_config = None;
    // Without a selection the empty config key is selected.
    assert!(should_use_direct_local(&unselected));
    unselected.settings.as_mut().unwrap().custom_model_providers = None;
    assert!(!should_use_direct_local(&unselected));
    assert!(find_local_endpoint(&unselected).is_none());
}

#[test]
fn direct_requests_find_their_endpoint() {
    let spaced = request("k", vec![provider(" http://localhost", &[("m", "k")])]);
    assert!(should_use_direct_local(&spaced));
    let found = find_local_endpoint(&spaced).unwrap();
    assert_eq!((found.base_url.as_str(), found.model_slug.as_str()), (" http://localhost", "m"));
    let spaced = request("k", vec![provider(" https://opencode.ai/zen/v1 ", &[("m", "k")])]);
    assert!(should_use_direct_local(&spaced));
    assert!(find_local_endpoint(&spaced).is_some());
}

#[test]
fn requests_have_a_default_endpoint() {
    let endpoint = endpoint_for(&empty_request());
    assert_eq!(endpoint.base_url, "https://chatgpt.com/backend-api/codex");
    assert_eq!(endpoint.model_slug, "gpt-5.6-sol");
    assert_eq!(endpoint.api_key, "");
}

#[test]
fn chats_tell_the_history_and_the_input() {
    let mut request = empty_request();
    assert_eq!(chat(&request), vec![(Role::User, "Hello".to_string())]);
    request.tasks = Some(vec![
        task(
            "t1",
            None,
            vec![
                HistoryMessage::UserQuery { query: "q".to_string() },
                HistoryMessage::AgentOutput { text: String::new() },
                HistoryMessage::AgentOutput { text: "a".to_string() },
                HistoryMessage::Other,
            ],
        ),
        task(
            "t2",
            None,
            vec![
                HistoryMessage::ToolCall { tool_call_id: "c".to_string(), tool: Some("Grep".to_string()) },
                HistoryMessage::ToolCall { tool_call_id: "d".to_string(), tool: None },
                HistoryMessage::ToolCallResult { tool_call_id: "c".to_string(), result: "found".to_string() },
            ],
        ),
    ]);
    request.inputs = Some(vec![
        UserInput::Other,
        UserInput::UserQuery { query: String::new() },
        UserInput::ToolCallResult { tool_call_id: "e".to_string(), result: "ok".to_string() },
    ]);
    assert_eq!(
        chat(&request),
        vec![
            (Role::User, "q".to_string()),
            (Role::Assistant, "a".to_string()),
            (Role::Assistant, "Requested workspace tool c: Grep".to_string()),
            (Role::Assistant, "Requested workspace tool d: ".to_string()),
            (Role::User, "[Workspace tool result for c]\nfound".to_string()),
            (Role::User, String::new()),
            (Role::User, "[Workspace tool result for e]\nok".to_string()),
        ]
    );
}

#[test]
fn responses_requests_have_instructions_and_input() {
    let messages = vec![
        ChatMessage { role: Role::System, content: "Be brief.".to_string() },
        ChatMessage { role: Role::User, content: "Hi".to_string() },
        ChatMessage { role: Role::System, content: "Be kind.".to_string() },
        ChatMessage { role: Role::Assistant, content: "Hello".to_string() },
    ];
    let request = build_chat_request(true, "gpt", &messages);
    assert_eq!(text_member(Some(&request), "model"), Some("gpt"));
    assert_eq!(text_member(Some(&request), "instructions"), Some("Be brief.\n\nBe kind."));
    assert_eq!(member(Some(&request), "stream"), Some(&Json::Bool(true)));
    assert_eq!(member(Some(&request), "store"), Some(&Json::Bool(false)));
    assert_eq!(member(Some(&request), "tool_choice"), None);
    let input = parse_json(
        r#"[{"role": "user", "content": [{"type": "input_text", "text": "Hi"}]},
            {"role": "assistant", "content": [{"type": "output_text", "text": "Hello"}]}]"#,
    )
    .unwrap();
    assert_same(member(Some(&request), "input").unwrap(), &input);
    let plain = build_chat_request(true, "gpt", &vec![]);
    assert_eq!(
        text_member(Some(&plain), "instructions"),
        Some("You are a helpful AI assistant.")
    );
}

#[test]
fn completions_requests_have_messages() {
    let messages = vec![
        ChatMessage { role: Role::System, content: "S".to_string() },
        ChatMessage { role: Role::User, content: "Hi".to_string() },
    ];
    let request = build_chat_request(false, "llama", &messages);
    assert_eq!(text_member(Some(&request), "tool_choice"), Some("auto"));
    assert_eq!(member(Some(&request), "store"), None);
    let expected = parse_json(
        r#"[{"role": "system", "content": "S"}, {"role": "user", "content": "Hi"}]"#,
    )
    .unwrap();
    assert_same(member(Some(&request), "messages").unwrap(), &expected);
    assert_eq!(items(member(Some(&request), "tools")).unwrap().len(), 4);
}

/// Compares two documents without regard to the order of members.
fn assert_same(a: &Json, b: &Json) {
    match (a, b) {
        (Json::Object(left), Json::Object(right)) => {
            assert_eq!(left.len(), right.len());
            for (key, value) in left {
                assert_same(value, member(Some(b), key).expect("member"));
            }
        }
        (Json::Array(left), Json::Array(right)) => {
            assert_eq!(left.len(), right.len());
            for (x, y) in left.iter().zip(right) {
                assert_same(x, y);
            }
        }
        _ => assert_eq!(a, b),
    }
}

#[test]
fn the_offered_tools_are_described() {
    let expected = parse_json(
        r#"[
        {"type": "function", "name": "read_files",
         "description": "Read one or more files from the current workspace.",
         "parameters": {"type": "object",
            "properties": {"files": {"type": "array", "items": {"type": "object",
                "properties": {"name": {"type": "string"}}, "required": ["name"]}}},
            "required": ["files"]}},
        {"type": "function", "name": "grep",
         "description": "Search the workspace for text or regular expressions.",
         "parameters": {"type": "object",
            "properties": {"queries": {"type": "array", "items": {"type": "string"}},
                "path": {"type": "string"}},
            "required": ["queries", "path"]}},
        {"type": "function", "name": "file_glob",
         "description": "Find files matching glob patterns in the workspace.",
         "parameters": {"type": "object",
            "properties": {"patterns": {"type": "array", "items": {"type": "string"}},
                "path": {"type": "string"}},
            "required": ["patterns", "path"]}},
        {"type": "function", "name": "run_shell_command",
         "description": "Run a shell command in the workspace. Use only when needed.",
         "parameters": {"type": "object",
            "properties": {"command": {"type": "string"}, "is_read_only": {"type": "boolean"}},
            "required": ["command"]}}
        ]"#,
    )
    .unwrap();
    let flat = Json::Array(direct_tool_definitions(true));
    assert_same(&flat, &expected);
    let nested = direct_tool_definitions(false);
    for (nested, flat) in nested.iter().zip(direct_tool_definitions(true)) {
        assert_eq!(text_member(Some(nested), "type"), Some("function"));
        let function = member(Some(nested), "function");
        let name = text_member(function, "name").unwrap();
        assert_eq!(text_member(Some(&flat), "name"), Some(name));
        assert_same(
            member(function, "parameters").unwrap(),
            member(Some(&flat), "parameters").unwrap(),
        );
        // Every tool that is offered is understood.
        let args = parse_json(
            r#"{"files": [], "queries": [], "patterns": [], "path": "", "command": ""}"#,
        )
        .unwrap();
        assert!(tool_from_arguments(name, &args).is_some());
    }
}

#[test]
fn requests_have_their_url_and_headers() {
    assert_eq!(
        chat_url("https://chatgpt.com/backend-api/codex/"),
        "https://chatgpt.com/backend-api/codex/responses"
    );
    assert_eq!(chat_url("http://localhost:1/v1"), "http://localhost:1/v1/chat/completions");
    let headers = |url: &str| -> Vec<(&'static str, String)> { chat_headers(&endpoint(url)) };
    let json = ("Content-Type", "application/json".to_string());
    assert_eq!(
        headers("http://localhost:1"),
        vec![json.clone(), ("Authorization", "Bearer openai-oauth".to_string())]
    );
    assert_eq!(
        headers("https://opencode.ai/zen/v1"),
        vec![json.clone(), ("Authorization", "Bearer secret".to_string())]
    );
    let mut codex = vec![json];
    codex.extend(codex_headers("secret"));
    assert_eq!(headers("https://chatgpt.com/backend-api/codex"), codex);
    assert_eq!(
        codex_headers("t"),
        vec![
            ("Authorization", "Bearer t".to_string()),
            ("Origin", "https://chatgpt.com".to_string()),
            ("Referer", "https://chatgpt.com/codex".to_string()),
        ]
    );
    assert_eq!(check_local_status(200, "200 OK", ""), Ok(()));
    assert_eq!(
        check_local_status(503, "503 Service Unavailable", "later"),
        Err("Local endpoint error (503 Service Unavailable): later".to_string())
    );
}

#[test]
fn new_conversations_create_a_task() {
    let mut request = empty_request();
    request.tasks = Some(vec![]);
    let opened = open_stream(&request, true, ids());
    assert_eq!(
        opened.opening,
        vec![
            ResponseEvent::Init {
                conversation_id: String::new(),
                request_id: "request".to_string(),
                run_id: String::new(),
            },
            ResponseEvent::ClientActions {
                actions: vec![ClientAction::CreateTask { task_id: "fresh".to_string() }],
            },
        ]
    );
    assert_eq!(opened.stream.task_id, "fresh");
    assert_eq!(opened.stream.message_id, "message");
    assert!(opened.stream.responses_api && !opened.stream.completed);
}

#[test]
fn existing_conversations_go_on_with_their_root_task() {
    let mut request = empty_request();
    request.conversation_id = Some("conversation".to_string());
    request.tasks = Some(vec![
        task("child", Some("root"), vec![]),
        task("root", Some(""), vec![]),
        task("later", None, vec![]),
    ]);
    let opened = open_stream(&request, false, ids());
    assert_eq!(opened.opening.len(), 1);
    assert!(matches!(
        &opened.opening[0],
        ResponseEvent::Init { conversation_id, .. } if conversation_id == "conversation"
    ));
    assert_eq!(opened.stream.task_id, "root");
    request.tasks = Some(vec![task("a", Some("x"), vec![]), task("b", Some("a"), vec![])]);
    assert_eq!(open_stream(&request, false, ids()).stream.task_id, "a");
}

fn event(step: AnswerStep) -> ResponseEvent {
    match step {
        AnswerStep::Event(event) => event,
        other => panic!("no event: {other:?}"),
    }
}

fn told(event: &ResponseEvent) -> (&str, &str) {
    match event {
        ResponseEvent::ClientActions { actions } => match &actions[..] {
            [ClientAction::AddMessagesToTask { task_id, messages }] => match &messages[0].content {
                MessageContent::AgentOutput { text } => (task_id, text),
                other => panic!("no text: {other:?}"),
            },
            other => panic!("no messages: {other:?}"),
        },
        other => panic!("no messages: {other:?}"),
    }
}

#[test]
fn answers_are_closed_once() {
    let mut answer = open_stream(&empty_request(), false, ids());
    assert!(matches!(event(answer.advance()), ResponseEvent::Init { .. }));
    assert!(matches!(
        event(answer.advance()),
        ResponseEvent::ClientActions { actions } if matches!(actions[0], ClientAction::CreateTask { .. })
    ));
    assert_eq!(answer.advance(), AnswerStep::NeedBytes);
    answer.push_bytes(b"data: {\"choices\":[{\"delta\":{\"content\":\"Hi\"}}]}\n\n");
    assert_eq!(answer.advance(), AnswerStep::NeedBytes);
    answer.push_bytes(b"data: [DONE]\n\n");
    assert_eq!(told(&event(answer.advance())), ("fresh", "Hi"));
    assert_eq!(event(answer.advance()), ResponseEvent::Finished);
    assert_eq!(answer.advance(), AnswerStep::Ended);
    answer.push_bytes(b"data: [DONE]\n\n");
    answer.end_input();
    assert_eq!(answer.advance(), AnswerStep::Ended);
}

#[test]
fn cuts_between_bytes_do_not_matter() {
    let body = b"data: {\"choices\":[{\"delta\":{\"content\":\"Hi\"}}]}\n\ndata: [DONE]\n\n";
    for cut in 0..=body.len() {
        let mut answer = open_stream(&empty_request(), false, ids());
        event(answer.advance());
        event(answer.advance());
        answer.push_bytes(&body[..cut]);
        let mut step = answer.advance();
        answer.push_bytes(&body[cut..]);
        if step == AnswerStep::NeedBytes {
            step = answer.advance();
        }
        assert_eq!(told(&event(step)), ("fresh", "Hi"), "{cut}");
    }
}

#[test]
fn answers_that_break_off_are_closed_too() {
    let mut request = empty_request();
    request.tasks = Some(vec![task("root", None, vec![])]);
    let mut answer = open_stream(&request, false, ids());
    answer.push_bytes(b"data: {\"choices\":[{\"delta\":{\"content\":\"Half\"}}]}\n\n");
    answer.end_input();
    assert!(matches!(event(answer.advance()), ResponseEvent::Init { .. }));
    assert_eq!(told(&event(answer.advance())), ("root", "Half"));
    assert_eq!(event(answer.advance()), ResponseEvent::Finished);
    assert_eq!(answer.advance(), AnswerStep::Ended);
}

#[test]
fn fresh_ids_are_different() {
    let opened = start_stream(&empty_request(), true);
    assert_eq!(opened.opening.len(), 2);
    assert_eq!(opened.stream.task_id.len(), 36);
    assert_eq!(opened.stream.message_id.len(), 36);
    assert_ne!(opened.stream.task_id, opened.stream.message_id);
}

#[test]
fn calls_are_prepared_as_a_whole() {
    let call = prepare_call(&empty_request());
    assert!(call.responses_api);
    assert_eq!(call.url, "https://chatgpt.com/backend-api/codex/responses");
    assert_eq!(call.headers[1], ("Authorization", "Bearer ".to_string()));
    assert_eq!(text_member(Some(&call.body), "model"), Some("gpt-5.6-sol"));
    let call = prepare_call(&request("k", vec![provider("http://localhost:2/", &[("one", "k")])]));
    assert!(!call.responses_api);
    assert_eq!(call.url, "http://localhost:2/chat/completions");
    assert_eq!(text_member(Some(&call.body), "model"), Some("one"));
    assert_eq!(items(member(Some(&call.body), "messages")).unwrap().len(), 1);
}
