//! The chat request that goes to a direct provider.
use crate::direct::{
    endpoint_for, extract_messages, is_chatgpt_endpoint, is_opencode_endpoint, ChatMessage,
    LocalEndpoint, Request, Role,
};
use crate::json::{array, entry, object, text_json, Json};
use crate::text::{join, strip_trailing};
use vstd::prelude::*;

verus! {

/// The JSON schema of a value of the type `kind`.
pub open spec fn type_schema(kind: Seq<char>) -> crate::json::JsonView {
    crate::json::JsonView::Object(seq![("type"@, crate::json::JsonView::Text(kind))])
}

/// The JSON schema of a list.
pub open spec fn list_schema(item: crate::json::JsonView) -> crate::json::JsonView {
    crate::json::JsonView::Object(
        seq![("type"@, crate::json::JsonView::Text("array"@)), ("items"@, item)],
    )
}

/// The JSON schema of an object.
pub open spec fn object_schema(
    properties: Seq<(Seq<char>, crate::json::JsonView)>,
    required: Seq<Seq<char>>,
) -> crate::json::JsonView {
    crate::json::JsonView::Object(
        seq![
            ("type"@, crate::json::JsonView::Text("object"@)),
            ("properties"@, crate::json::JsonView::Object(properties)),
            (
                "required"@,
                crate::json::JsonView::Array(
                    required.map_values(|name: Seq<char>| crate::json::JsonView::Text(name)),
                ),
            ),
        ],
    )
}

/// The arguments of `read_files`: a list of files, each with its name.
pub open spec fn read_files_schema() -> crate::json::JsonView {
    object_schema(
        seq![
            (
                "files"@,
                list_schema(
                    crate::json::JsonView::Object(
                        seq![
                            ("type"@, crate::json::JsonView::Text("object"@)),
                            (
                                "properties"@,
                                crate::json::JsonView::Object(
                                    seq![("name"@, type_schema("string"@))],
                                ),
                            ),
                            (
                                "required"@,
                                crate::json::JsonView::Array(
                                    seq![crate::json::JsonView::Text("name"@)],
                                ),
                            ),
                        ],
                    ),
                ),
            ),
        ],
        seq!["files"@],
    )
}

/// The arguments of a search: a list of texts under `key`, and the path to search.
pub open spec fn search_schema(key: Seq<char>) -> crate::json::JsonView {
    object_schema(
        seq![
            (key, list_schema(type_schema("string"@))),
            ("path"@, type_schema("string"@)),
        ],
        seq![key, "path"@],
    )
}

/// The arguments of `run_shell_command`.
pub open spec fn shell_schema() -> crate::json::JsonView {
    object_schema(
        seq![
            ("command"@, type_schema("string"@)),
            ("is_read_only"@, type_schema("boolean"@)),
        ],
        seq!["command"@],
    )
}

/// How a tool is offered: the Responses API takes its description as it is, the Chat Completions
/// API takes it under `function`.
pub open spec fn definition_view(
    responses_api: bool,
    name: Seq<char>,
    description: Seq<char>,
    parameters: crate::json::JsonView,
) -> crate::json::JsonView {
    let function = seq![
        ("name"@, crate::json::JsonView::Text(name)),
        ("description"@, crate::json::JsonView::Text(description)),
        ("parameters"@, parameters),
    ];
    let kind = ("type"@, crate::json::JsonView::Text("function"@));
    if responses_api {
        crate::json::JsonView::Object(seq![kind] + function)
    } else {
        crate::json::JsonView::Object(
            seq![kind, ("function"@, crate::json::JsonView::Object(function))],
        )
    }
}

/// The tools that are offered.
pub open spec fn tool_definitions(responses_api: bool) -> Seq<crate::json::JsonView> {
    seq![
        definition_view(
            responses_api,
            "read_files"@,
            "Read one or more files from the current workspace."@,
            read_files_schema(),
        ),
        definition_view(
            responses_api,
            "grep"@,
            "Search the workspace for text or regular expressions."@,
            search_schema("queries"@),
        ),
        definition_view(
            responses_api,
            "file_glob"@,
            "Find files matching glob patterns in the workspace."@,
            search_schema("patterns"@),
        ),
        definition_view(
            responses_api,
            "run_shell_command"@,
            "Run a shell command in the workspace. Use only when needed."@,
            shell_schema(),
        ),
    ]
}

fn build_type_schema(kind: &str) -> (res: Json)
    ensures
        res@ == type_schema(kind@),
{
    let members = vec![entry("type", text_json(kind))];
    assert(crate::json::members_of(members@) =~= seq![
        ("type"@, crate::json::JsonView::Text(kind@)),
    ]);
    object(members)
}

fn build_list_schema(item: Json) -> (res: Json)
    ensures
        res@ == list_schema(item@),
{
    let members = vec![entry("type", text_json("array")), entry("items", item)];
    assert(crate::json::members_of(members@) =~= seq![
        ("type"@, crate::json::JsonView::Text("array"@)),
        ("items"@, item@),
    ]);
    object(members)
}

fn build_object_schema(properties: Vec<(String, Json)>, required: Vec<&str>) -> (res: Json)
    ensures
        res@ == object_schema(
            crate::json::members_of(properties@),
            crate::text::slice_texts(required@),
        ),
{
    let ghost names = crate::text::slice_texts(required@);
    let ghost said = |name: Seq<char>| crate::json::JsonView::Text(name);
    let mut list: Vec<Json> = Vec::new();
    let n: usize = required.len();
    let mut i: usize = 0;
    assert(crate::json::documents(list@) =~= names.take(0).map_values(said));
    while i < n
        invariant
            i <= n == required@.len(),
            names == crate::text::slice_texts(required@),
            said == (|name: Seq<char>| crate::json::JsonView::Text(name)),
            crate::json::documents(list@) == names.take(i as int).map_values(said),
        decreases n - i,
    {
        let ghost earlier = crate::json::documents(list@);
        list.push(text_json(required[i]));
        assert(crate::json::documents(list@) =~= earlier.push(said(names[i as int])));
        assert(names.take(i + 1).map_values(said) =~= names.take(i as int).map_values(said).push(
            said(names[i as int]),
        ));
        i += 1;
    }
    assert(names.take(n as int) =~= names);
    let members = vec![
        entry("type", text_json("object")),
        entry("properties", object(properties)),
        entry("required", array(list)),
    ];
    assert(crate::json::members_of(members@) =~= seq![
        ("type"@, crate::json::JsonView::Text("object"@)),
        (
            "properties"@,
            crate::json::JsonView::Object(crate::json::members_of(properties@)),
        ),
        ("required"@, crate::json::JsonView::Array(names.map_values(said))),
    ]);
    object(members)
}

fn build_read_files_schema() -> (res: Json)
    ensures
        res@ == read_files_schema(),
{
    let file = vec![entry("name", build_type_schema("string"))];
    assert(crate::json::members_of(file@) =~= seq![("name"@, type_schema("string"@))]);
    let name: Vec<&str> = vec!["name"];
    assert(crate::text::slice_texts(name@) =~= seq!["name"@]);
    assert(seq!["name"@].map_values(|name: Seq<char>| crate::json::JsonView::Text(name)) =~= seq![
        crate::json::JsonView::Text("name"@),
    ]);
    let files = vec![entry("files", build_list_schema(build_object_schema(file, name)))];
    let required: Vec<&str> = vec!["files"];
    assert(crate::text::slice_texts(required@) =~= seq!["files"@]);
    assert(crate::json::members_of(files@) =~= seq![("files"@, files@[0].1@)]);
    build_object_schema(files, required)
}

fn build_search_schema(key: &str) -> (res: Json)
    ensures
        res@ == search_schema(key@),
{
    let properties = vec![
        entry(key, build_list_schema(build_type_schema("string"))),
        entry("path", build_type_schema("string")),
    ];
    assert(crate::json::members_of(properties@) =~= seq![
        (key@, list_schema(type_schema("string"@))),
        ("path"@, type_schema("string"@)),
    ]);
    let required: Vec<&str> = vec![key, "path"];
    assert(crate::text::slice_texts(required@) =~= seq![key@, "path"@]);
    build_object_schema(properties, required)
}

fn build_shell_schema() -> (res: Json)
    ensures
        res@ == shell_schema(),
{
    let properties = vec![
        entry("command", build_type_schema("string")),
        entry("is_read_only", build_type_schema("boolean")),
    ];
    assert(crate::json::members_of(properties@) =~= seq![
        ("command"@, type_schema("string"@)),
        ("is_read_only"@, type_schema("boolean"@)),
    ]);
    let required: Vec<&str> = vec!["command"];
    assert(crate::text::slice_texts(required@) =~= seq!["command"@]);
    build_object_schema(properties, required)
}

fn build_definition(responses_api: bool, name: &str, description: &str, parameters: Json) -> (res:
    Json)
    ensures
        res@ == definition_view(responses_api, name@, description@, parameters@),
{
    let ghost function = seq![
        ("name"@, crate::json::JsonView::Text(name@)),
        ("description"@, crate::json::JsonView::Text(description@)),
        ("parameters"@, parameters@),
    ];
    let ghost kind = ("type"@, crate::json::JsonView::Text("function"@));
    if responses_api {
        let members = vec![
            entry("type", text_json("function")),
            entry("name", text_json(name)),
            entry("description", text_json(description)),
            entry("parameters", parameters),
        ];
        assert(crate::json::members_of(members@) =~= seq![kind] + function);
        object(members)
    } else {
        let inner = vec![
            entry("name", text_json(name)),
            entry("description", text_json(description)),
            entry("parameters", parameters),
        ];
        assert(crate::json::members_of(inner@) =~= function);
        let members = vec![
            entry("type", text_json("function")),
            entry("function", object(inner)),
        ];
        assert(crate::json::members_of(members@) =~= seq![
            kind,
            ("function"@, crate::json::JsonView::Object(function)),
        ]);
        object(members)
    }
}

/// The tools that are offered to a direct provider.
pub fn direct_tool_definitions(responses_api: bool) -> (res: Vec<Json>)
    ensures
        crate::json::documents(res@) == tool_definitions(responses_api),
{
    let definitions = vec![
        build_definition(
            responses_api,
            "read_files",
            "Read one or more files from the current workspace.",
            build_read_files_schema(),
        ),
        build_definition(
            responses_api,
            "grep",
            "Search the workspace for text or regular expressions.",
            build_search_schema("queries"),
        ),
        build_definition(
            responses_api,
            "file_glob",
            "Find files matching glob patterns in the workspace.",
            build_search_schema("patterns"),
        ),
        build_definition(
            responses_api,
            "run_shell_command",
            "Run a shell command in the workspace. Use only when needed.",
            build_shell_schema(),
        ),
    ];
    assert(crate::json::documents(definitions@) =~= tool_definitions(responses_api));
    definitions
}

/// What the system messages of a chat say, or a general instruction if they say nothing.
pub open spec fn instructions_of(messages: Seq<crate::direct::ChatView>) -> Seq<char> {
    let said = crate::text::joined(
        messages.filter_map(|message: crate::direct::ChatView| system_text(message)),
        "\n\n"@,
    );
    if said.len() == 0 {
        "You are a helpful AI assistant."@
    } else {
        said
    }
}

pub open spec fn system_text(message: crate::direct::ChatView) -> Option<Seq<char>> {
    if message.role is System {
        Some(message.content)
    } else {
        None
    }
}

/// A message as the Responses API takes it; system messages go elsewhere.
pub open spec fn input_item(message: crate::direct::ChatView) -> Option<crate::json::JsonView> {
    if message.role is System {
        None
    } else {
        let kind = if message.role is Assistant {
            "output_text"@
        } else {
            "input_text"@
        };
        Some(
            crate::json::JsonView::Object(
                seq![
                    ("role"@, crate::json::JsonView::Text(message.role.name_view())),
                    (
                        "content"@,
                        crate::json::JsonView::Array(
                            seq![
                                crate::json::JsonView::Object(
                                    seq![
                                        ("type"@, crate::json::JsonView::Text(kind)),
                                        ("text"@, crate::json::JsonView::Text(message.content)),
                                    ],
                                ),
                            ],
                        ),
                    ),
                ],
            ),
        )
    }
}

/// A message as the Chat Completions API takes it.
pub open spec fn chat_item(message: crate::direct::ChatView) -> crate::json::JsonView {
    crate::json::JsonView::Object(
        seq![
            ("role"@, crate::json::JsonView::Text(message.role.name_view())),
            ("content"@, crate::json::JsonView::Text(message.content)),
        ],
    )
}

/// The request for an answer to `messages` by the model `slug`.
pub open spec fn chat_request_view(
    responses_api: bool,
    slug: Seq<char>,
    messages: Seq<crate::direct::ChatView>,
) -> crate::json::JsonView {
    let tools = crate::json::JsonView::Array(tool_definitions(responses_api));
    if responses_api {
        crate::json::JsonView::Object(
            seq![
                ("model"@, crate::json::JsonView::Text(slug)),
                ("instructions"@, crate::json::JsonView::Text(instructions_of(messages))),
                (
                    "input"@,
                    crate::json::JsonView::Array(
                        messages.filter_map(
                            |message: crate::direct::ChatView| input_item(message),
                        ),
                    ),
                ),
                ("tools"@, tools),
                ("stream"@, crate::json::JsonView::Bool(true)),
                ("store"@, crate::json::JsonView::Bool(false)),
            ],
        )
    } else {
        crate::json::JsonView::Object(
            seq![
                ("model"@, crate::json::JsonView::Text(slug)),
                (
                    "messages"@,
                    crate::json::JsonView::Array(
                        messages.map_values(
                            |message: crate::direct::ChatView| chat_item(message),
                        ),
                    ),
                ),
                ("tools"@, tools),
                ("tool_choice"@, crate::json::JsonView::Text("auto"@)),
                ("stream"@, crate::json::JsonView::Bool(true)),
            ],
        )
    }
}

fn collect_instructions(messages: &Vec<ChatMessage>) -> (res: String)
    ensures
        res@ == instructions_of(crate::direct::chat_views(messages@)),
{
    let ghost all = crate::direct::chat_views(messages@);
    let ghost pick = |message: crate::direct::ChatView| system_text(message);
    let mut said: Vec<String> = Vec::new();
    let n: usize = messages.len();
    let mut i: usize = 0;
    assert(crate::text::texts(said@) =~= all.take(0).filter_map(pick));
    while i < n
        invariant
            i <= n == messages@.len(),
            all == crate::direct::chat_views(messages@),
            pick == (|message: crate::direct::ChatView| system_text(message)),
            crate::text::texts(said@) == all.take(i as int).filter_map(pick),
        decreases n - i,
    {
        proof {
            all.lemma_filter_map_take_succ(pick, i as int);
        }
        match messages[i].role {
            Role::System => {
                said.push(messages[i].content.clone());
            },
            _ => {},
        }
        assert(crate::text::texts(said@) =~= all.take(i + 1).filter_map(pick));
        i += 1;
    }
    assert(all.take(n as int) =~= all);
    let instructions = join(&said, "\n\n");
    if instructions.as_str().is_empty() {
        "You are a helpful AI assistant.".to_owned()
    } else {
        instructions
    }
}

fn build_input_item(message: &ChatMessage) -> (res: Option<Json>)
    ensures
        (match res {
            Some(item) => Some(item@),
            None => None,
        }) == input_item(message@),
{
    let kind = match message.role {
        Role::System => {
            return None;
        },
        Role::Assistant => "output_text",
        Role::User => "input_text",
    };
    let part = vec![
        entry("type", text_json(kind)),
        entry("text", text_json(message.content.as_str())),
    ];
    assert(crate::json::members_of(part@) =~= seq![
        ("type"@, crate::json::JsonView::Text(kind@)),
        ("text"@, crate::json::JsonView::Text(message@.content)),
    ]);
    let parts = vec![object(part)];
    assert(crate::json::documents(parts@) =~= seq![parts@[0]@]);
    let members = vec![
        entry("role", text_json(message.role.name())),
        entry("content", array(parts)),
    ];
    assert(crate::json::members_of(members@) =~= seq![
        ("role"@, crate::json::JsonView::Text(message.role.name_view())),
        ("content"@, members@[1].1@),
    ]);
    Some(object(members))
}

fn build_input(messages: &Vec<ChatMessage>) -> (res: Vec<Json>)
    ensures
        crate::json::documents(res@) == crate::direct::chat_views(messages@).filter_map(
            |message: crate::direct::ChatView| input_item(message),
        ),
{
    let ghost all = crate::direct::chat_views(messages@);
    let ghost pick = |message: crate::direct::ChatView| input_item(message);
    let mut list: Vec<Json> = Vec::new();
    let n: usize = messages.len();
    let mut i: usize = 0;
    assert(crate::json::documents(list@) =~= all.take(0).filter_map(pick));
    while i < n
        invariant
            i <= n == messages@.len(),
            all == crate::direct::chat_views(messages@),
            pick == (|message: crate::direct::ChatView| input_item(message)),
            crate::json::documents(list@) == all.take(i as int).filter_map(pick),
        decreases n - i,
    {
        proof {
            all.lemma_filter_map_take_succ(pick, i as int);
        }
        let ghost earlier = crate::json::documents(list@);
        match build_input_item(&messages[i]) {
            Some(item) => {
                list.push(item);
                assert(crate::json::documents(list@) =~= earlier.push(item@));
            },
            None => {},
        }
        assert(crate::json::documents(list@) =~= all.take(i + 1).filter_map(pick));
        i += 1;
    }
    assert(all.take(n as int) =~= all);
    list
}

fn build_messages(messages: &Vec<ChatMessage>) -> (res: Vec<Json>)
    ensures
        crate::json::documents(res@) == crate::direct::chat_views(messages@).map_values(
            |message: crate::direct::ChatView| chat_item(message),
        ),
{
    let ghost all = crate::direct::chat_views(messages@);
    let ghost said = |message: crate::direct::ChatView| chat_item(message);
    let mut list: Vec<Json> = Vec::new();
    let n: usize = messages.len();
    let mut i: usize = 0;
    assert(crate::json::documents(list@) =~= all.take(0).map_values(said));
    while i < n
        invariant
            i <= n == messages@.len(),
            all == crate::direct::chat_views(messages@),
            said == (|message: crate::direct::ChatView| chat_item(message)),
            crate::json::documents(list@) == all.take(i as int).map_values(said),
        decreases n - i,
    {
        let ghost earlier = crate::json::documents(list@);
        let members = vec![
            entry("role", text_json(messages[i].role.name())),
            entry("content", text_json(messages[i].content.as_str())),
        ];
        assert(crate::json::members_of(members@) =~= seq![
            ("role"@, crate::json::JsonView::Text(all[i as int].role.name_view())),
            ("content"@, crate::json::JsonView::Text(all[i as int].content)),
        ]);
        list.push(object(members));
        assert(crate::json::documents(list@) =~= earlier.push(said(all[i as int])));
        assert(all.take(i + 1).map_values(said) =~= all.take(i as int).map_values(said).push(
            said(all[i as int]),
        ));
        i += 1;
    }
    assert(all.take(n as int) =~= all);
    list
}

/// The request for an answer to `messages` by the model `slug`.
pub fn build_chat_request(responses_api: bool, slug: &str, messages: &Vec<ChatMessage>) -> (res:
    Json)
    ensures
        res@ == chat_request_view(responses_api, slug@, crate::direct::chat_views(messages@)),
{
    let ghost all = crate::direct::chat_views(messages@);
    let tools = array(direct_tool_definitions(responses_api));
    if responses_api {
        let instructions = collect_instructions(messages);
        let members = vec![
            entry("model", text_json(slug)),
            entry("instructions", text_json(instructions.as_str())),
            entry("input", array(build_input(messages))),
            entry("tools", tools),
            entry("stream", Json::Bool(true)),
            entry("store", Json::Bool(false)),
        ];
        assert(crate::json::members_of(members@)
            =~= chat_request_view(responses_api, slug@, all)->Object_0);
        object(members)
    } else {
        let members = vec![
            entry("model", text_json(slug)),
            entry("messages", array(build_messages(messages))),
            entry("tools", tools),
            entry("tool_choice", text_json("auto")),
            entry("stream", Json::Bool(true)),
        ];
        assert(crate::json::members_of(members@)
            =~= chat_request_view(responses_api, slug@, all)->Object_0);
        object(members)
    }
}

/// The URL to which the request goes.
pub open spec fn chat_url_view(base_url: Seq<char>) -> Seq<char> {
    crate::text::without_trailing(base_url, '/') + if crate::direct::chatgpt_endpoint(base_url) {
        "/responses"@
    } else {
        "/chat/completions"@
    }
}

/// The URL to which the request goes.
pub fn chat_url(base_url: &str) -> (res: String)
    ensures
        res@ == chat_url_view(base_url@),
{
    let mut url = strip_trailing(base_url, '/').to_owned();
    if is_chatgpt_endpoint(base_url) {
        url.append("/responses");
    } else {
        url.append("/chat/completions");
    }
    url
}

/// The fields of a header.
pub open spec fn header_texts(headers: Seq<(&'static str, String)>) -> Seq<(Seq<char>, Seq<char>)> {
    headers.map_values(|header: (&'static str, String)| (header.0@, header.1@))
}

/// The headers with which ChatGPT's Codex backend is called.
pub open spec fn codex_header_view(access_token: Seq<char>) -> Seq<(Seq<char>, Seq<char>)> {
    seq![
        ("Authorization"@, "Bearer "@ + access_token),
        ("Origin"@, "https://chatgpt.com"@),
        ("Referer"@, "https://chatgpt.com/codex"@),
    ]
}

/// The headers with which an endpoint is called: the API key goes to the providers that ask for
/// one, a local provider gets a fixed one.
pub open spec fn header_view(endpoint: crate::direct::LocalEndpointView) -> Seq<
    (Seq<char>, Seq<char>),
> {
    seq![("Content-Type"@, "application/json"@)] + if crate::direct::chatgpt_endpoint(
        endpoint.base_url,
    ) {
        codex_header_view(endpoint.api_key)
    } else if crate::direct::opencode_endpoint(endpoint.base_url) {
        seq![("Authorization"@, "Bearer "@ + endpoint.api_key)]
    } else {
        seq![("Authorization"@, "Bearer openai-oauth"@)]
    }
}

fn bearer(token: &str) -> (res: String)
    ensures
        res@ == "Bearer "@ + token@,
{
    let mut words = "Bearer ".to_owned();
    words.append(token);
    words
}

/// The headers with which ChatGPT's Codex backend is called.
pub fn codex_headers(access_token: &str) -> (res: Vec<(&'static str, String)>)
    ensures
        header_texts(res@) == codex_header_view(access_token@),
{
    let headers: Vec<(&'static str, String)> = vec![
        ("Authorization", bearer(access_token)),
        ("Origin", "https://chatgpt.com".to_owned()),
        ("Referer", "https://chatgpt.com/codex".to_owned()),
    ];
    assert(header_texts(headers@) =~= codex_header_view(access_token@));
    headers
}

/// The headers with which an endpoint is called.
pub fn chat_headers(endpoint: &LocalEndpoint) -> (res: Vec<(&'static str, String)>)
    ensures
        header_texts(res@) == header_view(endpoint@),
{
    if is_chatgpt_endpoint(endpoint.base_url.as_str()) {
        let headers: Vec<(&'static str, String)> = vec![
            ("Content-Type", "application/json".to_owned()),
            ("Authorization", bearer(endpoint.api_key.as_str())),
            ("Origin", "https://chatgpt.com".to_owned()),
            ("Referer", "https://chatgpt.com/codex".to_owned()),
        ];
        assert(header_texts(headers@) =~= header_view(endpoint@));
        headers
    } else if is_opencode_endpoint(endpoint.base_url.as_str()) {
        let headers: Vec<(&'static str, String)> = vec![
            ("Content-Type", "application/json".to_owned()),
            ("Authorization", bearer(endpoint.api_key.as_str())),
        ];
        assert(header_texts(headers@) =~= header_view(endpoint@));
        headers
    } else {
        // Preserve the existing openai-oauth/local-provider contract.
        let headers: Vec<(&'static str, String)> = vec![
            ("Content-Type", "application/json".to_owned()),
            ("Authorization", "Bearer openai-oauth".to_owned()),
        ];
        assert(header_texts(headers@) =~= header_view(endpoint@));
        headers
    }
}

/// A call of a direct provider.
pub struct LocalCall {
    /// Whether the provider speaks the Responses API rather than the Chat Completions API.
    pub responses_api: bool,
    pub url: String,
    pub headers: Vec<(&'static str, String)>,
    pub body: Json,
}

/// The endpoint that a request is sent to.
pub open spec fn endpoint_of(request: Request) -> crate::direct::LocalEndpointView {
    if crate::direct::candidate_endpoints(request).len() > 0 {
        crate::direct::candidate_endpoints(request)[0]
    } else {
        crate::direct::default_endpoint()
    }
}

/// `call` is the call that a request makes.
pub open spec fn prepares(request: Request, call: LocalCall) -> bool {
    let endpoint = endpoint_of(request);
    &&& call.responses_api == crate::direct::chatgpt_endpoint(endpoint.base_url)
    &&& call.url@ == chat_url_view(endpoint.base_url)
    &&& header_texts(call.headers@) == header_view(endpoint)
    &&& call.body@ == chat_request_view(
        call.responses_api,
        endpoint.model_slug,
        crate::direct::chat_of(request),
    )
}

/// The call that a request makes: it goes to the endpoint that serves the selected model, and
/// carries the whole chat.
pub fn prepare_call(request: &Request) -> (res: LocalCall)
    ensures
        prepares(*request, res),
{
    let endpoint = endpoint_for(request);
    let messages = extract_messages(request);
    let responses_api = is_chatgpt_endpoint(endpoint.base_url.as_str());
    LocalCall {
        responses_api,
        url: chat_url(endpoint.base_url.as_str()),
        headers: chat_headers(&endpoint),
        body: build_chat_request(responses_api, endpoint.model_slug.as_str(), &messages),
    }
}

/// A tool call that is understood is a call of a tool that was offered.
pub proof fn law_understood_tools_are_offered(
    name: Seq<char>,
    args: crate::json::JsonView,
    responses_api: bool,
)
    requires
        crate::tools::tool_view(name, args) is Some,
    ensures
        exists|i: int, description: Seq<char>, parameters: crate::json::JsonView|
            0 <= i < tool_definitions(responses_api).len() && #[trigger] tool_definitions(
                responses_api,
            )[i] == #[trigger] definition_view(responses_api, name, description, parameters),
{
    let offered = tool_definitions(responses_api);
    if name == "read_files"@ {
        assert(offered[0] == definition_view(
            responses_api,
            name,
            "Read one or more files from the current workspace."@,
            read_files_schema(),
        ));
    } else if name == "grep"@ {
        assert(offered[1] == definition_view(
            responses_api,
            name,
            "Search the workspace for text or regular expressions."@,
            search_schema("queries"@),
        ));
    } else if name == "file_glob"@ {
        assert(offered[2] == definition_view(
            responses_api,
            name,
            "Find files matching glob patterns in the workspace."@,
            search_schema("patterns"@),
        ));
    } else {
        assert(offered[3] == definition_view(
            responses_api,
            name,
            "Run a shell command in the workspace. Use only when needed."@,
            shell_schema(),
        ));
    }
}

/// `value` is of the type that `schema` names.
pub open spec fn has_type(
    value: crate::json::JsonView,
    schema: Option<crate::json::JsonView>,
) -> bool {
    match crate::json::text_view(crate::json::member_view(schema, "type"@)) {
        Some(kind) => {
            &&& kind == "string"@ ==> value is Text
            &&& kind == "boolean"@ ==> value is Bool
            &&& kind == "array"@ ==> value is Array
            &&& kind == "object"@ ==> value is Object
        },
        None => true,
    }
}

/// `args` holds every member that `schema` requires, each of the type that the schema gives it.
pub open spec fn has_required(args: crate::json::JsonView, schema: crate::json::JsonView) -> bool {
    let properties = crate::json::member_view(Some(schema), "properties"@);
    match crate::json::items_view(crate::json::member_view(Some(schema), "required"@)) {
        Some(required) => forall|i: int|
            0 <= i < required.len() ==> match #[trigger] required[i] {
                crate::json::JsonView::Text(key) => {
                    match crate::json::member_view(Some(args), key) {
                        Some(value) => has_type(
                            value,
                            crate::json::member_view(properties, key),
                        ),
                        None => false,
                    }
                },
                _ => true,
            },
        None => true,
    }
}

/// A call of a tool that was offered, with the arguments that the offer requires, is understood.
pub proof fn law_offered_tools_are_understood(
    responses_api: bool,
    at: int,
    name: Seq<char>,
    description: Seq<char>,
    parameters: crate::json::JsonView,
    args: crate::json::JsonView,
)
    requires
        0 <= at < tool_definitions(responses_api).len(),
        tool_definitions(responses_api)[at] == definition_view(
            responses_api,
            name,
            description,
            parameters,
        ),
        has_required(args, parameters),
    ensures
        crate::tools::tool_view(name, args) is Some,
{
    reveal_strlit("read_files");
    reveal_strlit("grep");
    reveal_strlit("file_glob");
    reveal_strlit("run_shell_command");
    reveal_strlit("queries");
    reveal_strlit("patterns");
    reveal_strlit("path");
    assert("read_files"@.len() == 10 && "grep"@.len() == 4 && "file_glob"@.len() == 9);
    assert("run_shell_command"@.len() == 17);
    assert("queries"@.len() == 7 && "patterns"@.len() == 8 && "path"@.len() == 4);
    let string = type_schema("string"@);
    if at == 0 {
        lemma_one_definition(
            responses_api,
            name,
            description,
            parameters,
            "read_files"@,
            "Read one or more files from the current workspace."@,
            read_files_schema(),
        );
        let file = object_schema(seq![("name"@, string)], seq!["name"@]);
        let names = seq!["name"@].map_values(
            |name: Seq<char>| crate::json::JsonView::Text(name),
        );
        assert(names =~= seq![crate::json::JsonView::Text("name"@)]);
        lemma_required(seq![("files"@, list_schema(file))], seq!["files"@], args, 0);
    } else if at == 1 {
        lemma_one_definition(
            responses_api,
            name,
            description,
            parameters,
            "grep"@,
            "Search the workspace for text or regular expressions."@,
            search_schema("queries"@),
        );
        lemma_search_required("queries"@, args);
    } else if at == 2 {
        lemma_one_definition(
            responses_api,
            name,
            description,
            parameters,
            "file_glob"@,
            "Find files matching glob patterns in the workspace."@,
            search_schema("patterns"@),
        );
        lemma_search_required("patterns"@, args);
    } else {
        lemma_one_definition(
            responses_api,
            name,
            description,
            parameters,
            "run_shell_command"@,
            "Run a shell command in the workspace. Use only when needed."@,
            shell_schema(),
        );
        lemma_required(
            seq![("command"@, string), ("is_read_only"@, type_schema("boolean"@))],
            seq!["command"@],
            args,
            0,
        );
    }
}

/// A definition holds the name and the parameters that it was made of.
proof fn lemma_one_definition(
    responses_api: bool,
    name: Seq<char>,
    description: Seq<char>,
    parameters: crate::json::JsonView,
    other_name: Seq<char>,
    other_description: Seq<char>,
    other_parameters: crate::json::JsonView,
)
    requires
        definition_view(responses_api, name, description, parameters) == definition_view(
            responses_api,
            other_name,
            other_description,
            other_parameters,
        ),
    ensures
        name == other_name,
        parameters == other_parameters,
{
    let kind = ("type"@, crate::json::JsonView::Text("function"@));
    let function = seq![
        ("name"@, crate::json::JsonView::Text(name)),
        ("description"@, crate::json::JsonView::Text(description)),
        ("parameters"@, parameters),
    ];
    let other = seq![
        ("name"@, crate::json::JsonView::Text(other_name)),
        ("description"@, crate::json::JsonView::Text(other_description)),
        ("parameters"@, other_parameters),
    ];
    if responses_api {
        let whole = seq![kind] + function;
        let other_whole = seq![kind] + other;
        assert(whole == other_whole);
        assert(whole[1] == function[0] && other_whole[1] == other[0]);
        assert(whole[3] == function[2] && other_whole[3] == other[2]);
    } else {
        let whole = seq![kind, ("function"@, crate::json::JsonView::Object(function))];
        let other_whole = seq![kind, ("function"@, crate::json::JsonView::Object(other))];
        assert(whole == other_whole);
        assert(whole[1].1 == other_whole[1].1);
        assert(function == other);
    }
    assert(function[0] == other[0] && function[2] == other[2]);
}

/// What an object schema requires is there, of the type that the schema gives it.
proof fn lemma_required(
    properties: Seq<(Seq<char>, crate::json::JsonView)>,
    required: Seq<Seq<char>>,
    args: crate::json::JsonView,
    i: int,
)
    requires
        0 <= i < required.len(),
        has_required(args, object_schema(properties, required)),
    ensures
        crate::json::member_view(Some(args), required[i]) is Some,
        has_type(
            crate::json::member_view(Some(args), required[i])->0,
            crate::json::lookup(properties, required[i]),
        ),
        "string"@ != "array"@,
        forall|kind: Seq<char>|
            crate::json::text_view(
                crate::json::member_view(Some(#[trigger] type_schema(kind)), "type"@),
            ) == Some(kind),
        forall|item: crate::json::JsonView|
            crate::json::text_view(
                crate::json::member_view(Some(#[trigger] list_schema(item)), "type"@),
            ) == Some("array"@),
        properties.len() > 0 && properties[0].0 == required[i] ==> crate::json::lookup(
            properties,
            required[i],
        ) == Some(properties[0].1),
{
    reveal_strlit("type");
    reveal_strlit("properties");
    reveal_strlit("required");
    reveal_strlit("string");
    reveal_strlit("array");
    reveal_with_fuel(crate::json::lookup, 4);
    let schema = object_schema(properties, required);
    let keys = required.map_values(|name: Seq<char>| crate::json::JsonView::Text(name));
    let members = seq![
        ("type"@, crate::json::JsonView::Text("object"@)),
        ("properties"@, crate::json::JsonView::Object(properties)),
        ("required"@, crate::json::JsonView::Array(keys)),
    ];
    assert(schema == crate::json::JsonView::Object(members));
    assert("type"@.len() == 4 && "properties"@.len() == 10 && "required"@.len() == 8);
    assert("string"@.len() == 6 && "array"@.len() == 5);
    assert(members.drop_first()[0] == members[1]);
    assert(members.drop_first().drop_first()[0] == members[2]);
    assert(crate::json::member_view(Some(schema), "properties"@) == Some(members[1].1));
    assert(crate::json::member_view(Some(schema), "required"@) == Some(members[2].1));
    assert(keys[i] == crate::json::JsonView::Text(required[i]));
}

/// What a search requires is there.
proof fn lemma_search_required(key: Seq<char>, args: crate::json::JsonView)
    requires
        key != "path"@,
        has_required(args, search_schema(key)),
    ensures
        crate::tools::list_under(args, key) is Some,
        crate::tools::text_under(args, "path"@) is Some,
{
    let string = type_schema("string"@);
    let properties = seq![(key, list_schema(string)), ("path"@, string)];
    let required = seq![key, "path"@];
    lemma_required(properties, required, args, 0);
    lemma_required(properties, required, args, 1);
    reveal_with_fuel(crate::json::lookup, 3);
    assert(properties.drop_first()[0] == properties[1]);
    assert(crate::json::lookup(properties, "path"@) == Some(string));
}

/// The stored API key goes to ChatGPT and OpenCode alone: the headers for any other endpoint do
/// not depend on it.
pub proof fn law_local_providers_get_no_key(
    endpoint: crate::direct::LocalEndpointView,
    other_key: Seq<char>,
)
    requires
        !crate::direct::chatgpt_endpoint(endpoint.base_url),
        !crate::direct::opencode_endpoint(endpoint.base_url),
    ensures
        header_view(endpoint) == header_view(
            crate::direct::LocalEndpointView { api_key: other_key, ..endpoint },
        ),
{
}

/// A request goes to the first endpoint that serves its model; one that no endpoint serves goes to
/// the Codex backend, and takes no key there.
pub proof fn law_requests_have_somewhere_to_go(request: Request)
    ensures
        crate::direct::uses_direct_endpoint(request) ==> endpoint_of(request)
            == crate::direct::candidate_endpoints(request)[0],
        !crate::direct::uses_direct_endpoint(request) ==> crate::direct::chatgpt_endpoint(
            endpoint_of(request).base_url,
        ) && endpoint_of(request).api_key.len() == 0,
{
    crate::direct::law_direct_requests_find_their_endpoint(request);
    crate::direct::lemma_codex_is_the_default();
}

/// The names of the roles are different ones.
pub proof fn law_role_names_differ(a: Role, b: Role)
    ensures
        a.name_view() == b.name_view() ==> a == b,
        (Role::User).name_view() == "user"@,
        (Role::Assistant).name_view() == "assistant"@,
        (Role::System).name_view() == "system"@,
{
    reveal_strlit("user");
    reveal_strlit("assistant");
    reveal_strlit("system");
    assert("user"@.len() == 4 && "assistant"@.len() == 9 && "system"@.len() == 6);
}

/// A request to the Chat Completions API names the model, streams, offers the tools and carries
/// every message of the chat in its place, with its role and its words.
pub proof fn law_completions_requests_carry_the_chat(
    slug: Seq<char>,
    messages: Seq<crate::direct::ChatView>,
    i: int,
)
    requires
        0 <= i < messages.len(),
    ensures
        ({
            let body = Some(chat_request_view(false, slug, messages));
            &&& crate::json::member_view(body, "model"@) == Some(crate::json::JsonView::Text(slug))
            &&& crate::json::member_view(body, "stream"@) == Some(
                crate::json::JsonView::Bool(true),
            )
            &&& crate::json::member_view(body, "tools"@) == Some(
                crate::json::JsonView::Array(tool_definitions(false)),
            )
            &&& crate::json::member_view(body, "messages"@) matches Some(list)
            &&& list matches crate::json::JsonView::Array(items)
            &&& items.len() == messages.len()
            &&& crate::json::member_view(Some(items[i]), "role"@) == Some(
                crate::json::JsonView::Text(messages[i].role.name_view()),
            )
            &&& crate::json::member_view(Some(items[i]), "content"@) == Some(
                crate::json::JsonView::Text(messages[i].content),
            )
        }),
{
    let tools = crate::json::JsonView::Array(tool_definitions(false));
    let items = messages.map_values(|message: crate::direct::ChatView| chat_item(message));
    let members = seq![
        ("model"@, crate::json::JsonView::Text(slug)),
        ("messages"@, crate::json::JsonView::Array(items)),
        ("tools"@, tools),
        ("tool_choice"@, crate::json::JsonView::Text("auto"@)),
        ("stream"@, crate::json::JsonView::Bool(true)),
    ];
    lemma_member_names_differ();
    crate::json::law_first_member_counts(members, "model"@, 0);
    crate::json::law_first_member_counts(members, "messages"@, 1);
    crate::json::law_first_member_counts(members, "tools"@, 2);
    crate::json::law_first_member_counts(members, "stream"@, 4);
    assert(items[i] == chat_item(messages[i]));
    let item = seq![
        ("role"@, crate::json::JsonView::Text(messages[i].role.name_view())),
        ("content"@, crate::json::JsonView::Text(messages[i].content)),
    ];
    crate::json::law_first_member_counts(item, "role"@, 0);
    crate::json::law_first_member_counts(item, "content"@, 1);
}

proof fn lemma_member_names_differ()
    ensures
        "model"@ != "messages"@,
        "model"@ != "tools"@,
        "model"@ != "tool_choice"@,
        "model"@ != "stream"@,
        "model"@ != "instructions"@,
        "model"@ != "input"@,
        "model"@ != "store"@,
        "messages"@ != "tools"@,
        "messages"@ != "stream"@,
        "messages"@ != "tool_choice"@,
        "tools"@ != "tool_choice"@,
        "tools"@ != "stream"@,
        "tools"@ != "store"@,
        "tools"@ != "input"@,
        "tools"@ != "instructions"@,
        "stream"@ != "tool_choice"@,
        "stream"@ != "store"@,
        "stream"@ != "input"@,
        "stream"@ != "instructions"@,
        "input"@ != "instructions"@,
        "input"@ != "store"@,
        "store"@ != "instructions"@,
        "role"@ != "content"@,
        "type"@ != "text"@,
        "name"@ != "description"@,
        "name"@ != "parameters"@,
        "name"@ != "type"@,
        "description"@ != "parameters"@,
{
    reveal_strlit("model");
    reveal_strlit("messages");
    reveal_strlit("tools");
    reveal_strlit("tool_choice");
    reveal_strlit("stream");
    reveal_strlit("instructions");
    reveal_strlit("input");
    reveal_strlit("store");
    reveal_strlit("role");
    reveal_strlit("content");
    reveal_strlit("type");
    reveal_strlit("text");
    reveal_strlit("name");
    reveal_strlit("description");
    reveal_strlit("parameters");
    assert("model"@.len() == 5 && "messages"@.len() == 8 && "tools"@.len() == 5);
    assert("tool_choice"@.len() == 11 && "stream"@.len() == 6 && "instructions"@.len() == 12);
    assert("input"@.len() == 5 && "store"@.len() == 5);
    assert("model"@[0] == 'm' && "tools"@[0] == 't' && "input"@[0] == 'i' && "store"@[0] == 's');
    assert("role"@.len() == 4 && "content"@.len() == 7);
    assert("type"@[1] == 'y' && "text"@[1] == 'e');
    assert("name"@[0] == 'n' && "type"@[0] == 't');
    assert("name"@.len() == 4 && "description"@.len() == 11 && "parameters"@.len() == 10);
}

/// A request to the Responses API names the model, streams, is not stored, offers the tools and
/// carries every message of the chat that is no instruction in its place, with its role and its
/// words.
pub proof fn law_responses_requests_carry_the_chat(
    slug: Seq<char>,
    messages: Seq<crate::direct::ChatView>,
    i: int,
)
    requires
        0 <= i < messages.len(),
        forall|j: int| 0 <= j < messages.len() ==> !((#[trigger] messages[j]).role is System),
    ensures
        ({
            let body = Some(chat_request_view(true, slug, messages));
            &&& crate::json::member_view(body, "model"@) == Some(crate::json::JsonView::Text(slug))
            &&& crate::json::member_view(body, "stream"@) == Some(
                crate::json::JsonView::Bool(true),
            )
            &&& crate::json::member_view(body, "store"@) == Some(
                crate::json::JsonView::Bool(false),
            )
            &&& crate::json::member_view(body, "tools"@) == Some(
                crate::json::JsonView::Array(tool_definitions(true)),
            )
            &&& crate::json::member_view(body, "instructions"@) == Some(
                crate::json::JsonView::Text(instructions_of(messages)),
            )
            &&& crate::json::member_view(body, "input"@) matches Some(list)
            &&& list matches crate::json::JsonView::Array(items)
            &&& items.len() == messages.len()
            &&& crate::json::member_view(Some(items[i]), "role"@) == Some(
                crate::json::JsonView::Text(messages[i].role.name_view()),
            )
            &&& crate::json::member_view(Some(items[i]), "content"@) matches Some(content)
            &&& content matches crate::json::JsonView::Array(parts)
            &&& parts.len() == 1
            &&& crate::json::member_view(Some(parts[0]), "text"@) == Some(
                crate::json::JsonView::Text(messages[i].content),
            )
            &&& crate::json::member_view(Some(parts[0]), "type"@) == Some(
                crate::json::JsonView::Text(
                    if messages[i].role is Assistant {
                        "output_text"@
                    } else {
                        "input_text"@
                    },
                ),
            )
        }),
{
    let pick = |message: crate::direct::ChatView| input_item(message);
    let items = messages.filter_map(pick);
    let tools = crate::json::JsonView::Array(tool_definitions(true));
    let members = seq![
        ("model"@, crate::json::JsonView::Text(slug)),
        ("instructions"@, crate::json::JsonView::Text(instructions_of(messages))),
        ("input"@, crate::json::JsonView::Array(items)),
        ("tools"@, tools),
        ("stream"@, crate::json::JsonView::Bool(true)),
        ("store"@, crate::json::JsonView::Bool(false)),
    ];
    lemma_member_names_differ();
    crate::json::law_first_member_counts(members, "model"@, 0);
    crate::json::law_first_member_counts(members, "instructions"@, 1);
    crate::json::law_first_member_counts(members, "input"@, 2);
    crate::json::law_first_member_counts(members, "tools"@, 3);
    crate::json::law_first_member_counts(members, "stream"@, 4);
    crate::json::law_first_member_counts(members, "store"@, 5);
    crate::lists::lemma_all_picked(messages, pick);
    assert(Some(items[i]) == pick(messages[i]));
    let kind = if messages[i].role is Assistant {
        "output_text"@
    } else {
        "input_text"@
    };
    let part = seq![
        ("type"@, crate::json::JsonView::Text(kind)),
        ("text"@, crate::json::JsonView::Text(messages[i].content)),
    ];
    let item = seq![
        ("role"@, crate::json::JsonView::Text(messages[i].role.name_view())),
        (
            "content"@,
            crate::json::JsonView::Array(seq![crate::json::JsonView::Object(part)]),
        ),
    ];
    crate::json::law_first_member_counts(part, "type"@, 0);
    crate::json::law_first_member_counts(part, "text"@, 1);
    crate::json::law_first_member_counts(item, "role"@, 0);
    crate::json::law_first_member_counts(item, "content"@, 1);
    assert(items[i] == crate::json::JsonView::Object(item));
}

/// System messages are instructions and no part of the conversation: taking one out of the chat
/// leaves the input as it is, and alone in the chat its words are the instructions. A chat without
/// any has general instructions.
pub proof fn law_system_messages_are_instructions(
    front: Seq<crate::direct::ChatView>,
    words: Seq<char>,
    back: Seq<crate::direct::ChatView>,
)
    requires
        forall|i: int| 0 <= i < front.len() ==> !((#[trigger] front[i]).role is System),
        forall|i: int| 0 <= i < back.len() ==> !((#[trigger] back[i]).role is System),
        words.len() > 0,
    ensures
        ({
            let system = crate::direct::ChatView { role: Role::System, content: words };
            let pick = |message: crate::direct::ChatView| input_item(message);
            &&& instructions_of(front + seq![system] + back) == words
            &&& (front + seq![system] + back).filter_map(pick) == (front + back).filter_map(pick)
            &&& instructions_of(front) == "You are a helpful AI assistant."@
        }),
{
    let system = crate::direct::ChatView { role: Role::System, content: words };
    let pick = |message: crate::direct::ChatView| input_item(message);
    let said = |message: crate::direct::ChatView| system_text(message);
    crate::lists::lemma_picked_in_a_row(front + seq![system], back, pick);
    crate::lists::lemma_picked_in_a_row(front, seq![system], pick);
    crate::lists::lemma_picked_in_a_row(front, back, pick);
    Seq::<crate::direct::ChatView>::lemma_filter_map_singleton(system, pick);
    assert(front.filter_map(pick) + Seq::<crate::json::JsonView>::empty() =~= front.filter_map(
        pick,
    ));
    crate::lists::lemma_picked_in_a_row(front + seq![system], back, said);
    crate::lists::lemma_picked_in_a_row(front, seq![system], said);
    Seq::<crate::direct::ChatView>::lemma_filter_map_singleton(system, said);
    lemma_no_instructions(front);
    lemma_no_instructions(back);
    assert((front + seq![system] + back).filter_map(said) =~= seq![words]);
}

proof fn lemma_no_instructions(messages: Seq<crate::direct::ChatView>)
    requires
        forall|i: int| 0 <= i < messages.len() ==> !((#[trigger] messages[i]).role is System),
    ensures
        messages.filter_map(|message: crate::direct::ChatView| system_text(message)).len() == 0,
    decreases messages.len(),
{
    if messages.len() > 0 {
        let rest = messages.drop_last();
        assert forall|i: int| 0 <= i < rest.len() implies !((#[trigger] rest[i]).role is System) by {
            assert(rest[i] == messages[i]);
        }
        lemma_no_instructions(rest);
        assert(!(messages[messages.len() - 1].role is System));
    }
}

/// The slashes behind a base URL do not matter; what is put behind it depends on whether it is the
/// Codex backend.
pub proof fn law_chat_urls_are_made_of_the_base(base_url: Seq<char>)
    ensures
        chat_url_view(base_url.push('/')) == crate::text::without_trailing(base_url, '/') + if
            crate::direct::chatgpt_endpoint(base_url.push('/')) {
            "/responses"@
        } else {
            "/chat/completions"@
        },
        (base_url.len() > 0 ==> base_url.last() != '/') && crate::direct::chatgpt_endpoint(base_url)
            ==> chat_url_view(base_url) == base_url + "/responses"@,
        (base_url.len() > 0 ==> base_url.last() != '/') && !crate::direct::chatgpt_endpoint(base_url)
            ==> chat_url_view(base_url) == base_url + "/chat/completions"@,
{
    crate::text::law_trailing_characters_come_off(base_url, '/');
}

/// A call says once who makes it: with the stored key to ChatGPT and OpenCode, with a fixed token to
/// a local server. ChatGPT is told where the call comes from; the body is always JSON.
pub proof fn law_calls_say_who_makes_them(endpoint: crate::direct::LocalEndpointView, i: int)
    requires
        0 <= i < header_view(endpoint).len(),
    ensures
        header_view(endpoint)[0] == ("Content-Type"@, "application/json"@),
        header_view(endpoint)[1].0 == "Authorization"@,
        crate::direct::chatgpt_endpoint(endpoint.base_url) || crate::direct::opencode_endpoint(
            endpoint.base_url,
        ) ==> header_view(endpoint)[1].1 == "Bearer "@ + endpoint.api_key,
        !crate::direct::chatgpt_endpoint(endpoint.base_url) && !crate::direct::opencode_endpoint(
            endpoint.base_url,
        ) ==> header_view(endpoint)[1].1 == "Bearer openai-oauth"@,
        i != 1 ==> header_view(endpoint)[i].0 != "Authorization"@,
        crate::direct::chatgpt_endpoint(endpoint.base_url) <==> header_view(endpoint).len() == 4,
        crate::direct::chatgpt_endpoint(endpoint.base_url) ==> header_view(endpoint)[2] == (
            "Origin"@,
            "https://chatgpt.com"@,
        ) && header_view(endpoint)[3] == ("Referer"@, "https://chatgpt.com/codex"@),
{
    reveal_strlit("Authorization");
    reveal_strlit("Content-Type");
    reveal_strlit("Origin");
    reveal_strlit("Referer");
    assert("Authorization"@.len() == 13 && "Content-Type"@.len() == 12);
    assert("Origin"@.len() == 6 && "Referer"@.len() == 7);
}

/// Every tool is offered under its name with its parameters: in the Responses API as they are, in
/// the Chat Completions API under `function`.
pub proof fn law_definitions_name_their_tool(
    name: Seq<char>,
    description: Seq<char>,
    parameters: crate::json::JsonView,
)
    ensures
        ({
            let plain = Some(definition_view(true, name, description, parameters));
            let wrapped = crate::json::member_view(
                Some(definition_view(false, name, description, parameters)),
                "function"@,
            );
            &&& crate::json::member_view(plain, "name"@) == Some(crate::json::JsonView::Text(name))
            &&& crate::json::member_view(plain, "parameters"@) == Some(parameters)
            &&& crate::json::member_view(plain, "description"@) == Some(
                crate::json::JsonView::Text(description),
            )
            &&& crate::json::member_view(wrapped, "name"@) == Some(
                crate::json::JsonView::Text(name),
            )
            &&& crate::json::member_view(wrapped, "parameters"@) == Some(parameters)
            &&& crate::json::member_view(wrapped, "description"@) == Some(
                crate::json::JsonView::Text(description),
            )
        }),
{
    lemma_member_names_differ();
    reveal_strlit("type");
    reveal_strlit("function");
    reveal_strlit("description");
    reveal_strlit("parameters");
    assert("type"@.len() == 4 && "function"@.len() == 8);
    assert("description"@.len() == 11 && "parameters"@.len() == 10);
    let kind = ("type"@, crate::json::JsonView::Text("function"@));
    let function = seq![
        ("name"@, crate::json::JsonView::Text(name)),
        ("description"@, crate::json::JsonView::Text(description)),
        ("parameters"@, parameters),
    ];
    let whole = seq![kind] + function;
    let wrapped = seq![kind, ("function"@, crate::json::JsonView::Object(function))];
    assert(whole[1] == function[0] && whole[2] == function[1] && whole[3] == function[2]);
    crate::json::law_first_member_counts(whole, "name"@, 1);
    crate::json::law_first_member_counts(whole, "description"@, 2);
    crate::json::law_first_member_counts(whole, "parameters"@, 3);
    crate::json::law_first_member_counts(wrapped, "function"@, 1);
    crate::json::law_first_member_counts(function, "name"@, 0);
    crate::json::law_first_member_counts(function, "description"@, 1);
    crate::json::law_first_member_counts(function, "parameters"@, 2);
}

/// Several system messages instruct one after the other, with an empty line between them.
pub proof fn law_instructions_add_up(
    messages: Seq<crate::direct::ChatView>,
    at: int,
    words: Seq<char>,
)
    requires
        0 <= at < messages.len(),
        messages[at].role is System,
        messages[at].content.len() > 0,
    ensures
        instructions_of(
            messages.push(crate::direct::ChatView { role: Role::System, content: words }),
        ) == instructions_of(messages) + "\n\n"@ + words,
{
    let said = |message: crate::direct::ChatView| system_text(message);
    let system = crate::direct::ChatView { role: Role::System, content: words };
    let more = messages.push(system);
    let parts = messages.filter_map(said);
    assert(more.drop_last() =~= messages);
    assert(more.filter_map(said) == parts.push(words));
    crate::lists::lemma_picked_is_found(messages, said, at);
    let i = choose|i: int| 0 <= i < parts.len() && parts[i] == messages[at].content;
    crate::text::lemma_joined_holds(parts, "\n\n"@, i);
    assert(parts.push(words).drop_last() =~= parts);
    assert(crate::text::joined(parts.push(words), "\n\n"@) == crate::text::joined(
        parts,
        "\n\n"@,
    ) + "\n\n"@ + words);
}

/// The call that a request makes goes to the first provider that the client calls itself and that
/// serves the selected model: to its URL, with the name that the model has there, with the
/// provider's key where keys are sent, and with the whole chat.
pub proof fn law_calls_go_to_the_selected_model(
    request: Request,
    call: LocalCall,
    at: int,
    model: int,
    i: int,
)
    requires
        prepares(request, call),
        0 <= at < crate::direct::providers_of(request).len(),
        0 <= model < crate::direct::providers_of(request)[at].models.len(),
        crate::direct::direct_endpoint(
            crate::text::trimmed(crate::direct::providers_of(request)[at].base_url),
        ),
        crate::direct::providers_of(request)[at].models[model].config_key
            == crate::direct::selection_of(request),
        forall|j: int|
            0 <= j < model ==> (#[trigger] crate::direct::providers_of(
                request,
            )[at].models[j]).config_key != crate::direct::selection_of(request),
        forall|k: int, j: int|
            0 <= k < at && 0 <= j < crate::direct::providers_of(request)[k].models.len() ==> (
            #[trigger] crate::direct::providers_of(request)[k].models[j]).config_key
                != crate::direct::selection_of(request) || !crate::direct::direct_endpoint(
                crate::text::trimmed(crate::direct::providers_of(request)[k].base_url),
            ),
        0 <= i < crate::direct::chat_of(request).len(),
        !call.responses_api,
    ensures
        ({
            let provider = crate::direct::providers_of(request)[at];
            let body = Some(call.body@);
            &&& crate::text::without_trailing(provider.base_url, '/').is_prefix_of(call.url@)
            &&& crate::json::member_view(body, "model"@) == Some(
                crate::json::JsonView::Text(provider.models[model].slug),
            )
            &&& crate::direct::opencode_endpoint(provider.base_url) ==> call.headers@[1].1@
                == "Bearer "@ + provider.api_key
            &&& crate::json::member_view(body, "messages"@) matches Some(list)
            &&& list matches crate::json::JsonView::Array(items)
            &&& items.len() == crate::direct::chat_of(request).len()
            &&& crate::json::member_view(Some(items[i]), "content"@) == Some(
                crate::json::JsonView::Text(crate::direct::chat_of(request)[i].content),
            )
        }),
{
    let provider = crate::direct::providers_of(request)[at];
    crate::direct::law_requests_go_to_the_first_provider(request, at, model);
    let endpoint = endpoint_of(request);
    assert(endpoint.base_url == provider.base_url);
    law_completions_requests_carry_the_chat(
        endpoint.model_slug,
        crate::direct::chat_of(request),
        i,
    );
    let bare = crate::text::without_trailing(provider.base_url, '/');
    assert(call.url@.subrange(0, bare.len() as int) =~= bare);
    law_calls_say_who_makes_them(endpoint, 1);
    assert(header_texts(call.headers@)[1].1 == call.headers@[1].1@);
}

/// A call to the Codex backend uses the Responses API, and no other call does.
pub proof fn law_only_codex_gets_responses_calls(request: Request, call: LocalCall)
    requires
        prepares(request, call),
    ensures
        call.responses_api <==> crate::direct::chatgpt_endpoint(endpoint_of(request).base_url),
        call.responses_api ==> "/responses"@.is_suffix_of(call.url@),
        !call.responses_api ==> "/chat/completions"@.is_suffix_of(call.url@),
        !crate::direct::uses_direct_endpoint(request) ==> call.responses_api,
        call.responses_api ==> call.headers@[1].1@ == "Bearer "@ + endpoint_of(request).api_key,
{
    let endpoint = endpoint_of(request);
    law_requests_have_somewhere_to_go(request);
    law_calls_say_who_makes_them(endpoint, 1);
    assert(header_texts(call.headers@)[1].1 == call.headers@[1].1@);
    let bare = crate::text::without_trailing(endpoint.base_url, '/');
    let url = call.url@;
    assert(url.subrange(bare.len() as int, url.len() as int) =~= if call.responses_api {
        "/responses"@
    } else {
        "/chat/completions"@
    });
}

} // verus!
