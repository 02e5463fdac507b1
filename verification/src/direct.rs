//! Direct custom endpoint support: which requests the client sends to the selected provider itself
//! because the server cannot proxy its streaming protocol reliably, and what it sends.
use crate::events::{build_create_task_event, ResponseEvent};
use crate::ids::new_uuid;
use crate::oauth::{is_success, rejection_message, CHATGPT_BACKEND_BASE};
use crate::request::CustomModelProvider;
use crate::stream::{ProviderStream, StreamStep};
use crate::text::{same_text, starts_with, strip_trailing, trim};
use vstd::prelude::*;

verus! {

/// The selection of a model.
#[derive(Debug, PartialEq, Eq)]
pub struct ModelConfig {
    /// The config key of the selected model.
    pub base: String,
}

#[derive(Debug, PartialEq, Eq)]
pub struct Settings {
    pub model_config: Option<ModelConfig>,
    pub custom_model_providers: Option<Vec<CustomModelProvider>>,
}

/// An earlier message of a conversation; a tool and a tool result come in the words in which they
/// are shown to the model.
#[derive(Debug, PartialEq, Eq)]
pub enum HistoryMessage {
    UserQuery { query: String },
    AgentOutput { text: String },
    ToolCall { tool_call_id: String, tool: Option<String> },
    ToolCallResult { tool_call_id: String, result: String },
    Other,
}

#[derive(Debug, PartialEq, Eq)]
pub struct Task {
    pub id: String,
    /// The task on which this one depends: nothing, or an empty id, for a root task.
    pub parent_task_id: Option<String>,
    pub messages: Vec<HistoryMessage>,
}

/// What the user has just entered.
#[derive(Debug, PartialEq, Eq)]
pub enum UserInput {
    UserQuery { query: String },
    ToolCallResult { tool_call_id: String, result: String },
    Other,
}

/// A request for an answer of the agent.
#[derive(Debug, PartialEq, Eq)]
pub struct Request {
    pub settings: Option<Settings>,
    pub tasks: Option<Vec<Task>>,
    pub inputs: Option<Vec<UserInput>>,
    pub conversation_id: Option<String>,
}

/// `url` is that of a server in the local network, over plain HTTP.
pub open spec fn local_http_url(url: Seq<char>) -> bool {
    ||| "http://127."@.is_prefix_of(url)
    ||| "http://localhost"@.is_prefix_of(url)
    ||| "http://0.0.0.0"@.is_prefix_of(url)
    ||| "http://192.168."@.is_prefix_of(url)
    ||| "http://10."@.is_prefix_of(url)
}

/// `url` without the whitespace around it and the slashes behind it.
pub open spec fn bare_url(url: Seq<char>) -> Seq<char> {
    crate::text::without_trailing(crate::text::trimmed(url), '/')
}

/// `url` is that of the ChatGPT Codex backend.
pub open spec fn chatgpt_endpoint(url: Seq<char>) -> bool {
    ||| bare_url(url) == CHATGPT_BACKEND_BASE@
    ||| "https://chatgpt.com/backend-api/codex/"@.is_prefix_of(bare_url(url))
}

/// `url` is that of OpenCode.
pub open spec fn opencode_endpoint(url: Seq<char>) -> bool {
    "https://opencode.ai/zen/"@.is_prefix_of(bare_url(url))
}

/// `url` is called by the client itself.
pub open spec fn direct_endpoint(url: Seq<char>) -> bool {
    local_http_url(url) || chatgpt_endpoint(url) || opencode_endpoint(url)
}

pub fn is_local_http_url(url: &str) -> (res: bool)
    ensures
        res == local_http_url(url@),
{
    starts_with(url, "http://127.") || starts_with(url, "http://localhost") || starts_with(
        url,
        "http://0.0.0.0",
    ) || starts_with(url, "http://192.168.") || starts_with(url, "http://10.")
}

pub fn is_chatgpt_endpoint(url: &str) -> (res: bool)
    ensures
        res == chatgpt_endpoint(url@),
{
    let bare = strip_trailing(trim(url), '/');
    same_text(bare, CHATGPT_BACKEND_BASE) || starts_with(
        bare,
        "https://chatgpt.com/backend-api/codex/",
    )
}

pub fn is_opencode_endpoint(url: &str) -> (res: bool)
    ensures
        res == opencode_endpoint(url@),
{
    starts_with(strip_trailing(trim(url), '/'), "https://opencode.ai/zen/")
}

pub fn is_direct_endpoint(url: &str) -> (res: bool)
    ensures
        res == direct_endpoint(url@),
{
    is_local_http_url(url) || is_chatgpt_endpoint(url) || is_opencode_endpoint(url)
}

/// The config key of the model that the settings select: empty without a selection.
pub open spec fn selected_model(settings: Settings) -> Seq<char> {
    match settings.model_config {
        Some(config) => config.base@,
        None => Seq::empty(),
    }
}

pub fn selected_model_config(settings: &Settings) -> (res: String)
    ensures
        res@ == selected_model(*settings),
{
    match &settings.model_config {
        Some(config) => config.base.clone(),
        None => String::new(),
    }
}

/// The providers that a request registers.
pub open spec fn providers_of(request: Request) -> Seq<crate::request::ProviderView> {
    match request.settings {
        Some(settings) => match settings.custom_model_providers {
            Some(providers) => crate::request::provider_views(providers@),
            None => Seq::empty(),
        },
        None => Seq::empty(),
    }
}

/// The config key of the model that a request selects.
pub open spec fn selection_of(request: Request) -> Seq<char> {
    match request.settings {
        Some(settings) => selected_model(settings),
        None => Seq::empty(),
    }
}

/// The slug of the first model with the config key `selected`.
pub open spec fn slug_of(
    models: Seq<crate::request::CustomModelView>,
    selected: Seq<char>,
) -> Option<Seq<char>>
    decreases models.len(),
{
    if models.len() == 0 {
        None
    } else if models[0].config_key == selected {
        Some(models[0].slug)
    } else {
        slug_of(models.drop_first(), selected)
    }
}

/// A model of the provider has the config key `selected`.
pub open spec fn serves(provider: crate::request::ProviderView, selected: Seq<char>) -> bool {
    slug_of(provider.models, selected) is Some
}

/// The request is to be sent to the selected provider by the client itself.
pub open spec fn uses_direct_endpoint(request: Request) -> bool {
    exists|i: int|
        0 <= i < providers_of(request).len() && direct_endpoint(
            crate::text::trimmed((#[trigger] providers_of(request)[i]).base_url),
        ) && serves(providers_of(request)[i], selection_of(request))
}

fn find_slug<'a>(provider: &'a CustomModelProvider, selected: &str) -> (res: Option<&'a str>)
    ensures
        crate::json::seen_text(res) == slug_of(provider@.models, selected@),
{
    let ghost all = provider@.models;
    let n: usize = provider.models.len();
    let mut i: usize = 0;
    assert(all.skip(0) =~= all);
    while i < n
        invariant
            i <= n == provider.models@.len(),
            all == crate::request::custom_models(provider.models@),
            slug_of(all, selected@) == slug_of(all.skip(i as int), selected@),
        decreases n - i,
    {
        assert(all.skip(i as int)[0] == provider.models@[i as int]@);
        if same_text(provider.models[i].config_key.as_str(), selected) {
            return Some(provider.models[i].slug.as_str());
        }
        assert(all.skip(i as int).drop_first() =~= all.skip(i + 1));
        i += 1;
    }
    None
}

/// Returns true if the request's selected custom model is served by a local
/// HTTP endpoint (e.g. openai-oauth proxy at 127.0.0.1) that Warp's server
/// would reject.
pub fn should_use_direct_local(request: &Request) -> (res: bool)
    ensures
        res == uses_direct_endpoint(*request),
{
    let settings = match &request.settings {
        Some(settings) => settings,
        None => {
            return false;
        },
    };
    let providers = match &settings.custom_model_providers {
        Some(providers) => providers,
        None => {
            return false;
        },
    };
    let selected = selected_model_config(settings);
    let ghost all = providers_of(*request);
    let n: usize = providers.len();
    let mut i: usize = 0;
    while i < n
        invariant
            i <= n == providers@.len(),
            all == crate::request::provider_views(providers@),
            all == providers_of(*request),
            selected@ == selection_of(*request),
            forall|j: int|
                0 <= j < i ==> !(direct_endpoint(
                    crate::text::trimmed((#[trigger] all[j]).base_url),
                ) && serves(all[j], selected@)),
        decreases n - i,
    {
        let provider = &providers[i];
        assert(all[i as int] == provider@);
        if is_direct_endpoint(trim(provider.base_url.as_str())) && find_slug(
            provider,
            selected.as_str(),
        ).is_some() {
            assert(providers_of(*request)[i as int] == provider@);
            return true;
        }
        i += 1;
    }
    false
}

/// Where a request goes: the base URL, the name of the model there, and the API key.
#[derive(Debug, PartialEq, Eq)]
pub struct LocalEndpoint {
    pub base_url: String,
    pub model_slug: String,
    pub api_key: String,
}

pub ghost struct LocalEndpointView {
    pub base_url: Seq<char>,
    pub model_slug: Seq<char>,
    pub api_key: Seq<char>,
}

impl View for LocalEndpoint {
    type V = LocalEndpointView;

    open spec fn view(&self) -> LocalEndpointView {
        LocalEndpointView {
            base_url: self.base_url@,
            model_slug: self.model_slug@,
            api_key: self.api_key@,
        }
    }
}

/// Where `provider` serves the selected model, if the client calls it itself.
pub open spec fn endpoint_at(
    provider: crate::request::ProviderView,
    selected: Seq<char>,
) -> Option<LocalEndpointView> {
    match slug_of(provider.models, selected) {
        Some(slug) => if direct_endpoint(crate::text::trimmed(provider.base_url)) {
            Some(
                LocalEndpointView {
                    base_url: provider.base_url,
                    model_slug: slug,
                    api_key: provider.api_key,
                },
            )
        } else {
            None
        },
        None => None,
    }
}

/// The endpoints that serve the selected model, in the order of the providers.
pub open spec fn candidate_endpoints(request: Request) -> Seq<LocalEndpointView> {
    providers_of(request).filter_map(
        |provider: crate::request::ProviderView| endpoint_at(provider, selection_of(request)),
    )
}

/// Find the local provider's base URL and model slug for the selected model: the first that
/// serves it.
pub fn find_local_endpoint(request: &Request) -> (res: Option<LocalEndpoint>)
    ensures
        res is Some <==> candidate_endpoints(*request).len() > 0,
        res matches Some(endpoint) ==> endpoint@ == candidate_endpoints(*request)[0],
{
    let settings = match &request.settings {
        Some(settings) => settings,
        None => {
            return None;
        },
    };
    let providers = match &settings.custom_model_providers {
        Some(providers) => providers,
        None => {
            return None;
        },
    };
    let selected = selected_model_config(settings);
    let ghost all = providers_of(*request);
    let ghost pick = |provider: crate::request::ProviderView|
        endpoint_at(provider, selection_of(*request));
    let n: usize = providers.len();
    let mut i: usize = 0;
    assert(all.take(0).filter_map(pick) =~= Seq::<LocalEndpointView>::empty());
    while i < n
        invariant
            i <= n == providers@.len(),
            all == crate::request::provider_views(providers@),
            all == providers_of(*request),
            selected@ == selection_of(*request),
            pick == (|provider: crate::request::ProviderView|
                endpoint_at(provider, selection_of(*request))),
            all.take(i as int).filter_map(pick).len() == 0,
        decreases n - i,
    {
        let provider = &providers[i];
        assert(all[i as int] == provider@);
        proof {
            all.lemma_filter_map_take_succ(pick, i as int);
        }
        if is_direct_endpoint(trim(provider.base_url.as_str())) {
            match find_slug(provider, selected.as_str()) {
                Some(slug) => {
                    proof {
                        lemma_first_candidate(all, pick, i as int);
                    }
                    return Some(
                        LocalEndpoint {
                            base_url: provider.base_url.clone(),
                            model_slug: slug.to_owned(),
                            api_key: provider.api_key.clone(),
                        },
                    );
                },
                None => {},
            }
        }
        i += 1;
    }
    assert(all.take(n as int) =~= all);
    None
}

/// The first item that is picked is the first of what is picked.
proof fn lemma_first_candidate(
    all: Seq<crate::request::ProviderView>,
    pick: spec_fn(crate::request::ProviderView) -> Option<LocalEndpointView>,
    at: int,
)
    requires
        0 <= at < all.len(),
        all.take(at).filter_map(pick).len() == 0,
        pick(all[at]) is Some,
    ensures
        all.filter_map(pick).len() > 0,
        Some(all.filter_map(pick)[0]) == pick(all[at]),
    decreases all.len(),
{
    if at == all.len() - 1 {
        assert(all.take(at) =~= all.drop_last());
    } else {
        assert(all.drop_last().take(at) =~= all.take(at));
        lemma_first_candidate(all.drop_last(), pick, at);
    }
}

/// The endpoint that a request goes to when none serves the selected model.
pub open spec fn default_endpoint() -> LocalEndpointView {
    LocalEndpointView {
        base_url: CHATGPT_BACKEND_BASE@,
        model_slug: "gpt-5.6-sol"@,
        api_key: ""@,
    }
}

/// Where the request goes.
pub fn endpoint_for(request: &Request) -> (res: LocalEndpoint)
    ensures
        res@ == if candidate_endpoints(*request).len() > 0 {
            candidate_endpoints(*request)[0]
        } else {
            default_endpoint()
        },
{
    match find_local_endpoint(request) {
        Some(endpoint) => endpoint,
        None => LocalEndpoint {
            base_url: CHATGPT_BACKEND_BASE.to_owned(),
            model_slug: "gpt-5.6-sol".to_owned(),
            api_key: "".to_owned(),
        },
    }
}

/// Who speaks in a chat.
#[derive(Debug, Clone, Copy, PartialEq, Eq, Structural)]
pub enum Role {
    System,
    User,
    Assistant,
}

impl Role {
    pub open spec fn name_view(self) -> Seq<char> {
        match self {
            Role::System => "system"@,
            Role::User => "user"@,
            Role::Assistant => "assistant"@,
        }
    }

    pub fn name(self) -> (res: &'static str)
        ensures
            res@ == self.name_view(),
    {
        match self {
            Role::System => "system",
            Role::User => "user",
            Role::Assistant => "assistant",
        }
    }
}

/// A message of a chat.
#[derive(Debug, PartialEq, Eq)]
pub struct ChatMessage {
    pub role: Role,
    pub content: String,
}

pub ghost struct ChatView {
    pub role: Role,
    pub content: Seq<char>,
}

impl View for ChatMessage {
    type V = ChatView;

    open spec fn view(&self) -> ChatView {
        ChatView { role: self.role, content: self.content@ }
    }
}

pub open spec fn chat_views(messages: Seq<ChatMessage>) -> Seq<ChatView> {
    messages.map_values(|message: ChatMessage| message@)
}

/// How a tool call is told to the model.
pub open spec fn tool_call_text(tool_call_id: Seq<char>, tool: Option<Seq<char>>) -> Seq<char> {
    "Requested workspace tool "@ + tool_call_id + ": "@ + match tool {
        Some(text) => text,
        None => Seq::empty(),
    }
}

/// How a tool result is told to the model.
///
/// ChatGPT Responses and OpenCode's upstream both reject the chat-completions `role: tool` form on
/// their compatibility endpoints. The result is preserved as explicit user context instead.
pub open spec fn tool_result_text(tool_call_id: Seq<char>, result: Seq<char>) -> Seq<char> {
    "[Workspace tool result for "@ + tool_call_id + "]\n"@ + result
}

/// What an earlier message makes of the chat.
pub open spec fn chat_of_history(message: HistoryMessage) -> Option<ChatView> {
    match message {
        HistoryMessage::UserQuery { query } => Some(
            ChatView { role: Role::User, content: query@ },
        ),
        HistoryMessage::AgentOutput { text } => if text@.len() > 0 {
            Some(ChatView { role: Role::Assistant, content: text@ })
        } else {
            None
        },
        HistoryMessage::ToolCall { tool_call_id, tool } => Some(
            ChatView {
                role: Role::Assistant,
                content: tool_call_text(tool_call_id@, crate::text::opt_text(tool)),
            },
        ),
        HistoryMessage::ToolCallResult { tool_call_id, result } => Some(
            ChatView { role: Role::User, content: tool_result_text(tool_call_id@, result@) },
        ),
        HistoryMessage::Other => None,
    }
}

/// What an input of the user makes of the chat.
pub open spec fn chat_of_input(input: UserInput) -> Option<ChatView> {
    match input {
        UserInput::UserQuery { query } => Some(ChatView { role: Role::User, content: query@ }),
        UserInput::ToolCallResult { tool_call_id, result } => Some(
            ChatView { role: Role::User, content: tool_result_text(tool_call_id@, result@) },
        ),
        UserInput::Other => None,
    }
}

/// The chat of a task.
pub open spec fn chat_of_task(task: Task) -> Seq<ChatView> {
    task.messages@.filter_map(|message: HistoryMessage| chat_of_history(message))
}

/// The chat of several tasks, one after the other.
pub open spec fn chat_of_tasks(tasks: Seq<Task>) -> Seq<ChatView>
    decreases tasks.len(),
{
    if tasks.len() == 0 {
        Seq::empty()
    } else {
        chat_of_tasks(tasks.drop_last()) + chat_of_task(tasks.last())
    }
}

/// Everything that a request tells: the history and then what the user has just entered.
pub open spec fn told_chat(request: Request) -> Seq<ChatView> {
    (match request.tasks {
        Some(tasks) => chat_of_tasks(tasks@),
        None => Seq::empty(),
    }) + (match request.inputs {
        Some(inputs) => inputs@.filter_map(|input: UserInput| chat_of_input(input)),
        None => Seq::empty(),
    })
}

/// The chat that a request makes, which is never empty.
pub open spec fn chat_of(request: Request) -> Seq<ChatView> {
    if told_chat(request).len() == 0 {
        seq![ChatView { role: Role::User, content: "Hello"@ }]
    } else {
        told_chat(request)
    }
}

fn word_tool_call(tool_call_id: &str, tool: &Option<String>) -> (res: String)
    ensures
        res@ == tool_call_text(tool_call_id@, crate::text::opt_text(*tool)),
{
    let mut words = "Requested workspace tool ".to_owned();
    words.append(tool_call_id);
    words.append(": ");
    match tool {
        Some(text) => {
            words.append(text.as_str());
        },
        None => {},
    }
    assert(words@ =~= tool_call_text(tool_call_id@, crate::text::opt_text(*tool)));
    words
}

fn word_tool_result(tool_call_id: &str, result: &str) -> (res: String)
    ensures
        res@ == tool_result_text(tool_call_id@, result@),
{
    let mut words = "[Workspace tool result for ".to_owned();
    words.append(tool_call_id);
    words.append("]\n");
    words.append(result);
    words
}

pub open spec fn opt_chat(message: Option<ChatMessage>) -> Option<ChatView> {
    match message {
        Some(message) => Some(message@),
        None => None,
    }
}

fn read_history(message: &HistoryMessage) -> (res: Option<ChatMessage>)
    ensures
        opt_chat(res) == chat_of_history(*message),
{
    match message {
        HistoryMessage::UserQuery { query } => Some(
            ChatMessage { role: Role::User, content: query.clone() },
        ),
        HistoryMessage::AgentOutput { text } => if text.as_str().is_empty() {
            None
        } else {
            Some(ChatMessage { role: Role::Assistant, content: text.clone() })
        },
        HistoryMessage::ToolCall { tool_call_id, tool } => Some(
            ChatMessage {
                role: Role::Assistant,
                content: word_tool_call(tool_call_id.as_str(), tool),
            },
        ),
        HistoryMessage::ToolCallResult { tool_call_id, result } => Some(
            ChatMessage {
                role: Role::User,
                content: word_tool_result(tool_call_id.as_str(), result.as_str()),
            },
        ),
        HistoryMessage::Other => None,
    }
}

fn read_input(input: &UserInput) -> (res: Option<ChatMessage>)
    ensures
        opt_chat(res) == chat_of_input(*input),
{
    match input {
        UserInput::UserQuery { query } => Some(
            ChatMessage { role: Role::User, content: query.clone() },
        ),
        UserInput::ToolCallResult { tool_call_id, result } => Some(
            ChatMessage {
                role: Role::User,
                content: word_tool_result(tool_call_id.as_str(), result.as_str()),
            },
        ),
        UserInput::Other => None,
    }
}

fn add_task_chat(messages: &mut Vec<ChatMessage>, task: &Task)
    ensures
        chat_views(final(messages)@) == chat_views(old(messages)@) + chat_of_task(*task),
{
    let ghost before = chat_views(messages@);
    let ghost all = task.messages@;
    let ghost pick = |message: HistoryMessage| chat_of_history(message);
    let n: usize = task.messages.len();
    let mut i: usize = 0;
    assert(chat_views(messages@) =~= before + all.take(0).filter_map(pick));
    while i < n
        invariant
            i <= n == task.messages@.len(),
            all == task.messages@,
            pick == (|message: HistoryMessage| chat_of_history(message)),
            chat_views(messages@) == before + all.take(i as int).filter_map(pick),
        decreases n - i,
    {
        proof {
            all.lemma_filter_map_take_succ(pick, i as int);
        }
        let ghost earlier = chat_views(messages@);
        match read_history(&task.messages[i]) {
            Some(message) => {
                messages.push(message);
                assert(chat_views(messages@) =~= earlier.push(message@));
            },
            None => {},
        }
        assert(chat_views(messages@) =~= before + all.take(i + 1).filter_map(pick));
        i += 1;
    }
    assert(all.take(n as int) =~= all);
}

fn add_input_chat(messages: &mut Vec<ChatMessage>, inputs: &Vec<UserInput>)
    ensures
        chat_views(final(messages)@) == chat_views(old(messages)@) + inputs@.filter_map(
            |input: UserInput| chat_of_input(input),
        ),
{
    let ghost before = chat_views(messages@);
    let ghost all = inputs@;
    let ghost pick = |input: UserInput| chat_of_input(input);
    let n: usize = inputs.len();
    let mut i: usize = 0;
    assert(chat_views(messages@) =~= before + all.take(0).filter_map(pick));
    while i < n
        invariant
            i <= n == inputs@.len(),
            all == inputs@,
            pick == (|input: UserInput| chat_of_input(input)),
            chat_views(messages@) == before + all.take(i as int).filter_map(pick),
        decreases n - i,
    {
        proof {
            all.lemma_filter_map_take_succ(pick, i as int);
        }
        let ghost earlier = chat_views(messages@);
        match read_input(&inputs[i]) {
            Some(message) => {
                messages.push(message);
                assert(chat_views(messages@) =~= earlier.push(message@));
            },
            None => {},
        }
        assert(chat_views(messages@) =~= before + all.take(i + 1).filter_map(pick));
        i += 1;
    }
    assert(all.take(n as int) =~= all);
}

/// The chat that a request makes.
pub fn extract_messages(request: &Request) -> (res: Vec<ChatMessage>)
    ensures
        chat_views(res@) == chat_of(*request),
{
    let mut messages: Vec<ChatMessage> = Vec::new();
    assert(chat_views(messages@) =~= Seq::<ChatView>::empty());
    // History from task context.
    match &request.tasks {
        Some(tasks) => {
            let n: usize = tasks.len();
            let mut i: usize = 0;
            assert(tasks@.take(0) =~= Seq::<Task>::empty());
            while i < n
                invariant
                    i <= n == tasks@.len(),
                    chat_views(messages@) == chat_of_tasks(tasks@.take(i as int)),
                decreases n - i,
            {
                add_task_chat(&mut messages, &tasks[i]);
                assert(tasks@.take(i + 1).drop_last() =~= tasks@.take(i as int));
                i += 1;
            }
            assert(tasks@.take(n as int) =~= tasks@);
        },
        None => {},
    }
    let ghost history = chat_views(messages@);
    // Current user input.
    match &request.inputs {
        Some(inputs) => {
            add_input_chat(&mut messages, inputs);
        },
        None => {},
    }
    assert(chat_views(messages@) =~= told_chat(*request));
    assert(chat_views(messages@).len() == messages@.len());
    if messages.len() == 0 {
        messages.push(ChatMessage { role: Role::User, content: "Hello".to_owned() });
        assert(chat_views(messages@) =~= chat_of(*request));
    }
    messages
}

/// A chat always has something to answer: where a request tells nothing, the user says one word.
pub proof fn law_chats_are_never_empty(request: Request)
    ensures
        chat_of(request).len() > 0,
        request.tasks is None && request.inputs is None ==> chat_of(request).len() == 1 && chat_of(
            request,
        )[0].role is User && chat_of(request)[0].content.len() > 0,
{
    reveal_strlit("Hello");
}

/// The position of the first root task; the number of tasks if there is none.
pub open spec fn first_root(tasks: Seq<Task>) -> int
    decreases tasks.len(),
{
    if tasks.len() == 0 || is_root(tasks[0]) {
        0
    } else {
        1 + first_root(tasks.drop_first())
    }
}

/// The task depends on no other one.
pub open spec fn is_root(task: Task) -> bool {
    match task.parent_task_id {
        Some(parent) => parent@.len() == 0,
        None => true,
    }
}

/// The task to which an answer is added: the first root task, or else the first task, or none in a
/// new conversation.
pub open spec fn target_task(request: Request) -> Option<Seq<char>> {
    match request.tasks {
        Some(tasks) => if tasks@.len() == 0 {
            None
        } else if first_root(tasks@) < tasks@.len() {
            Some(tasks@[first_root(tasks@)].id@)
        } else {
            Some(tasks@[0].id@)
        },
        None => None,
    }
}

fn find_target_task(request: &Request) -> (res: Option<&str>)
    ensures
        crate::json::seen_text(res) == target_task(*request),
{
    let tasks = match &request.tasks {
        Some(tasks) => tasks,
        None => {
            return None;
        },
    };
    let n: usize = tasks.len();
    if n == 0 {
        return None;
    }
    let mut i: usize = 0;
    assert(tasks@.skip(0) =~= tasks@);
    while i < n
        invariant
            i <= n == tasks@.len(),
            n > 0,
            request.tasks == Some(*tasks),
            first_root(tasks@) == i + first_root(tasks@.skip(i as int)),
        decreases n - i,
    {
        let root = match &tasks[i].parent_task_id {
            Some(parent) => parent.as_str().is_empty(),
            None => true,
        };
        assert(tasks@.skip(i as int)[0] == tasks@[i as int]);
        if root {
            return Some(tasks[i].id.as_str());
        }
        assert(tasks@.skip(i as int).drop_first() =~= tasks@.skip(i + 1));
        i += 1;
    }
    Some(tasks[0].id.as_str())
}

/// The token of the conversation that a request belongs to: empty for none.
pub open spec fn conversation_of(request: Request) -> Seq<char> {
    match request.conversation_id {
        Some(id) => id@,
        None => Seq::empty(),
    }
}

/// The event opens the answer `request_id` in the conversation.
pub open spec fn opens_answer(
    event: ResponseEvent,
    conversation_id: Seq<char>,
    request_id: Seq<char>,
) -> bool {
    match event {
        ResponseEvent::Init { conversation_id: conversation, request_id: id, run_id } => {
            conversation@ == conversation_id && id@ == request_id && run_id@.len() == 0
        },
        _ => false,
    }
}

/// An answer that has begun: the events to hand out first, and the stream that the rest comes
/// from.
pub struct OpenedStream {
    /// The opening events that have not been handed out yet.
    pub opening: Vec<ResponseEvent>,
    pub stream: ProviderStream,
    /// No more bytes will come.
    pub input_ended: bool,
    /// The closing event has been handed out.
    pub closed: bool,
}

/// What comes next in an answer.
#[derive(Debug, PartialEq, Eq)]
pub enum AnswerStep {
    /// This event is to be sent.
    Event(ResponseEvent),
    /// More bytes have to come in.
    NeedBytes,
    /// Nothing more comes.
    Ended,
}

/// How far an answer has come.
pub ghost struct AnswerState {
    /// The task that the answer goes to.
    pub task_id: Seq<char>,
    /// The opening events that are left.
    pub opening: Seq<ResponseEvent>,
    /// The message of the answer has been handed out.
    pub completed: bool,
    /// The closing event has been handed out.
    pub closed: bool,
}

impl AnswerState {
    /// In this state an answer may take `step`, and is in the state `after` then: the opening
    /// events come first, one message next, and the closing event last.
    pub open spec fn takes(self, step: AnswerStep, after: AnswerState) -> bool {
        if self.opening.len() > 0 {
            &&& step == AnswerStep::Event(self.opening[0])
            &&& after == AnswerState { opening: self.opening.drop_first(), ..self }
        } else if !self.completed {
            match step {
                AnswerStep::Event(event) => adds_messages(event, self.task_id) && after
                    == AnswerState { completed: true, ..self },
                AnswerStep::NeedBytes => after == self,
                AnswerStep::Ended => false,
            }
        } else if !self.closed {
            &&& step == AnswerStep::Event(ResponseEvent::Finished)
            &&& after == AnswerState { closed: true, ..self }
        } else {
            &&& step is Ended
            &&& after == self
        }
    }
}

/// The event adds messages to the task `task_id`.
pub open spec fn adds_messages(event: ResponseEvent, task_id: Seq<char>) -> bool {
    match event {
        ResponseEvent::ClientActions { actions } => actions@.len() == 1 && match actions@[0] {
            crate::events::ClientAction::AddMessagesToTask { task_id: target, .. } => target@
                == task_id,
            _ => false,
        },
        _ => false,
    }
}

impl OpenedStream {
    pub open spec fn state(self) -> AnswerState {
        AnswerState {
            task_id: self.stream.task_id@,
            opening: self.opening@,
            completed: self.stream@.completed,
            closed: self.closed,
        }
    }

    /// Hands out what comes next.
    pub fn advance(&mut self) -> (res: AnswerStep)
        ensures
            old(self).state().takes(res, final(self).state()),
            final(self).stream.same_target(old(self).stream),
            final(self).input_ended == old(self).input_ended,
            old(self).opening@.len() > 0 || old(self).stream@.completed ==> final(self).stream@
                == old(self).stream@,
            old(self).opening@.len() == 0 && !old(self).stream@.completed ==> {
                let read = old(self).stream@.digested();
                let done = read.completed || old(self).input_ended;
                &&& final(self).stream@ == crate::stream::StreamView { completed: done, ..read }
                &&& res is NeedBytes <==> !done
                &&& res matches AnswerStep::Event(event) ==> final(self).stream.answered_by(event)
            },
    {
        if self.opening.len() > 0 {
            let event = self.opening.remove(0);
            assert(self.opening@ =~= old(self).opening@.drop_first());
            return AnswerStep::Event(event);
        }
        match self.stream.advance() {
            StreamStep::Message(event) => AnswerStep::Event(event),
            StreamStep::NeedBytes => {
                if self.input_ended {
                    match self.stream.end_of_input() {
                        StreamStep::Message(event) => AnswerStep::Event(event),
                        StreamStep::NeedBytes | StreamStep::Ended => AnswerStep::NeedBytes,
                    }
                } else {
                    AnswerStep::NeedBytes
                }
            },
            StreamStep::Ended => {
                if self.closed {
                    AnswerStep::Ended
                } else {
                    self.closed = true;
                    AnswerStep::Event(ResponseEvent::Finished)
                }
            },
        }
    }

    /// Takes in the bytes that have come.
    pub fn push_bytes(&mut self, bytes: &[u8])
        ensures
            final(self).state() == old(self).state(),
            final(self).stream.same_target(old(self).stream),
            final(self).stream@ == old(self).stream@.received(crate::unicode::decoded(bytes@)),
            final(self).input_ended == old(self).input_ended,
    {
        self.stream.push_bytes(bytes);
    }

    /// Takes note that no more bytes will come.
    pub fn end_input(&mut self)
        ensures
            *final(self) == (OpenedStream { input_ended: true, ..*old(self) }),
    {
        self.input_ended = true;
    }
}

/// `steps` lead an answer from `before` to `after`; what comes in between them does not matter.
pub open spec fn leads(before: AnswerState, steps: Seq<AnswerStep>, after: AnswerState) -> bool
    decreases steps.len(),
{
    if steps.len() == 0 {
        before == after
    } else {
        exists|between: AnswerState|
            leads(before, steps.drop_last(), between) && #[trigger] between.takes(
                steps.last(),
                after,
            )
    }
}

/// The events that `steps` hand out.
pub open spec fn events_of(steps: Seq<AnswerStep>) -> Seq<ResponseEvent> {
    steps.filter_map(|step: AnswerStep| event_of(step))
}

pub open spec fn event_of(step: AnswerStep) -> Option<ResponseEvent> {
    match step {
        AnswerStep::Event(event) => Some(event),
        _ => None,
    }
}

/// `events` are what an answer that began in the state `start` has handed out when it is in
/// `state`: the opening events in their order, then one event that adds messages, then the closing
/// event.
pub open spec fn handed_out(
    start: AnswerState,
    state: AnswerState,
    events: Seq<ResponseEvent>,
) -> bool {
    let n = start.opening.len() as int;
    &&& state.task_id == start.task_id
    &&& state.closed ==> state.completed
    &&& if !state.completed {
        start.opening == events + state.opening
    } else {
        &&& state.opening.len() == 0
        &&& events.len() == n + 1 + (if state.closed {
            1int
        } else {
            0int
        })
        &&& events.take(n) == start.opening
        &&& adds_messages(events[n], start.task_id)
        &&& state.closed ==> events[n + 1] is Finished
    }
}

/// However many steps an answer has taken, it has handed out its opening events, one event that
/// adds messages and the closing event, in this order, as far as it has come; and it ends only
/// behind the closing event.
pub proof fn law_answers_go_forward(start: AnswerState, steps: Seq<AnswerStep>, after: AnswerState)
    requires
        !start.completed,
        !start.closed,
        leads(start, steps, after),
    ensures
        handed_out(start, after, events_of(steps)),
        steps.len() > 0 && steps.last() is Ended ==> after.closed,
    decreases steps.len(),
{
    let events = events_of(steps);
    if steps.len() == 0 {
        assert(events + after.opening =~= start.opening);
    } else {
        let earlier = steps.drop_last();
        let between = choose|between: AnswerState|
            leads(start, earlier, between) && #[trigger] between.takes(steps.last(), after);
        law_answers_go_forward(start, earlier, between);
        let said = events_of(earlier);
        let n = start.opening.len() as int;
        match steps.last() {
            AnswerStep::Event(event) => {
                assert(events =~= said.push(event));
                if between.opening.len() > 0 {
                    assert(events + after.opening =~= said + between.opening);
                } else if !between.completed {
                    assert(said =~= start.opening);
                    assert(events.take(n) =~= start.opening);
                } else {
                    assert(events.take(n) =~= said.take(n));
                }
            },
            _ => {
                assert(events =~= said);
            },
        }
    }
}

/// The ids that an answer needs: one for the request, one for a task in case there is none, and
/// one for the message.
#[derive(Debug, PartialEq, Eq)]
pub struct FreshIds {
    pub request_id: String,
    pub task_id: String,
    pub message_id: String,
}

/// `opened` is how the answer to a request begins.
///
/// Any direct endpoint with an existing task must append to that task. A task is only created for
/// the first request in a new local conversation; creating it on a follow-up upgrades an
/// already-server task.
pub open spec fn opened_for(
    request: Request,
    responses_api: bool,
    ids: FreshIds,
    opened: OpenedStream,
) -> bool {
    let events = opened.opening@;
    &&& events.len() >= 1
    &&& opens_answer(events[0], conversation_of(request), ids.request_id@)
    &&& match target_task(request) {
        Some(task_id) => opened.stream.task_id@ == task_id && events.len() == 1,
        None => {
            &&& opened.stream.task_id@ == ids.task_id@
            &&& events.len() == 2
            &&& crate::events::creates_task(events[1], ids.task_id@)
        },
    }
    &&& opened.stream.message_id@ == ids.message_id@
    &&& opened.stream@ == crate::stream::StreamView {
        responses_api,
        buffer: Seq::empty(),
        output_text: Seq::empty(),
        tool_calls: Seq::empty(),
        completed: false,
    }
    &&& !opened.input_ended
    &&& !opened.closed
}

/// The events of a whole answer come in one order: the one that opens it, the one that creates a
/// task if and only if the request has none, exactly one that adds messages, to the task that the
/// request has or that was created, and the closing one, which comes once and last.
pub proof fn law_answers_are_closed(
    request: Request,
    responses_api: bool,
    ids: FreshIds,
    opened: OpenedStream,
    steps: Seq<AnswerStep>,
    after: AnswerState,
)
    requires
        opened_for(request, responses_api, ids, opened),
        leads(opened.state(), steps, after),
        steps.len() > 0,
        steps.last() is Ended,
    ensures
        ({
            let events = events_of(steps);
            let last = events.len() - 1;
            let task_id = match target_task(request) {
                Some(task_id) => task_id,
                None => ids.task_id@,
            };
            &&& last == if target_task(request) is Some {
                2int
            } else {
                3int
            }
            &&& opens_answer(events[0], conversation_of(request), ids.request_id@)
            &&& target_task(request) is None ==> crate::events::creates_task(events[1], task_id)
            &&& events[last] is Finished
            &&& events[last - 1] matches ResponseEvent::ClientActions { actions }
            &&& actions@.len() == 1
            &&& actions@[0] matches crate::events::ClientAction::AddMessagesToTask {
                task_id: target,
                ..
            }
            &&& target@ == task_id
        }),
{
    law_answers_go_forward(opened.state(), steps, after);
    let events = events_of(steps);
    let opening = opened.opening@;
    assert(opening == events.take(opening.len() as int));
    assert(events[0] == opening[0]);
    if opening.len() == 2 {
        assert(events[1] == opening[1]);
    }
}

/// Begins the answer to a request.
pub fn open_stream(request: &Request, responses_api: bool, ids: FreshIds) -> (res: OpenedStream)
    ensures
        opened_for(*request, responses_api, ids, res),
{
    // The history layer treats the conversation id as a server conversation token. A random local
    // UUID causes futile metadata lookups.
    let conversation_id = match &request.conversation_id {
        Some(id) => id.clone(),
        None => String::new(),
    };
    let mut opening: Vec<ResponseEvent> = vec![
        ResponseEvent::Init { conversation_id, request_id: ids.request_id, run_id: String::new() },
    ];
    match find_target_task(request) {
        Some(task_id) => OpenedStream {
            opening,
            stream: ProviderStream::new(responses_api, task_id.to_owned(), ids.message_id),
            input_ended: false,
            closed: false,
        },
        None => {
            opening.push(build_create_task_event(ids.task_id.as_str()));
            OpenedStream {
                opening,
                stream: ProviderStream::new(responses_api, ids.task_id, ids.message_id),
                input_ended: false,
                closed: false,
            }
        },
    }
}

/// The ids are fresh.
pub open spec fn are_fresh(ids: FreshIds) -> bool {
    &&& crate::ids::is_uuid_v4(ids.request_id@)
    &&& crate::ids::is_uuid_v4(ids.task_id@)
    &&& crate::ids::is_uuid_v4(ids.message_id@)
}

/// Begins the answer to a request under fresh ids.
pub fn start_stream(request: &Request, responses_api: bool) -> (res: OpenedStream)
    ensures
        exists|ids: FreshIds|
            are_fresh(ids) && #[trigger] opened_for(*request, responses_api, ids, res),
{
    let ids = FreshIds {
        request_id: new_uuid(),
        task_id: new_uuid(),
        message_id: new_uuid(),
    };
    open_stream(request, responses_api, ids)
}

/// Judges the status with which an endpoint answered.
pub fn check_local_status(code: u16, status: &str, body: &str) -> (res: Result<(), String>)
    ensures
        res is Ok <==> crate::oauth::success(code),
        res matches Err(message) ==> message@ == crate::oauth::rejection_text(
            "Local endpoint error"@,
            status@,
            body@,
        ),
{
    if is_success(code) {
        Ok(())
    } else {
        Err(rejection_message("Local endpoint error", status, body))
    }
}

proof fn lemma_candidate(request: Request, at: int)
    requires
        0 <= at < providers_of(request).len(),
        endpoint_at(providers_of(request)[at], selection_of(request)) is Some,
    ensures
        candidate_endpoints(request).len() > 0,
{
    let all = providers_of(request);
    let pick = |provider: crate::request::ProviderView|
        endpoint_at(provider, selection_of(request));
    lemma_some_candidate(all, pick, at);
}

proof fn lemma_some_candidate(
    all: Seq<crate::request::ProviderView>,
    pick: spec_fn(crate::request::ProviderView) -> Option<LocalEndpointView>,
    at: int,
)
    requires
        0 <= at < all.len(),
        pick(all[at]) is Some,
    ensures
        all.filter_map(pick).len() > 0,
    decreases all.len(),
{
    if at < all.len() - 1 {
        lemma_some_candidate(all.drop_last(), pick, at);
    }
}

/// An endpoint is found exactly for a request that is to be sent directly, and it is one that the
/// client calls itself.
pub proof fn law_direct_requests_find_their_endpoint(request: Request)
    ensures
        candidate_endpoints(request).len() > 0 <==> uses_direct_endpoint(request),
        forall|i: int|
            0 <= i < candidate_endpoints(request).len() ==> direct_endpoint(
                crate::text::trimmed((#[trigger] candidate_endpoints(request)[i]).base_url),
            ),
{
    let all = providers_of(request);
    let selected = selection_of(request);
    let pick = |provider: crate::request::ProviderView| endpoint_at(provider, selected);
    let found = candidate_endpoints(request);
    assert forall|i: int| 0 <= i < found.len() implies direct_endpoint(
        crate::text::trimmed((#[trigger] found[i]).base_url),
    ) && uses_direct_endpoint(request) by {
        assert(all.filter_map(pick).contains(found[i]));
        all.lemma_filter_map_contains(pick, found[i]);
        let provider = choose|provider: crate::request::ProviderView| #[trigger]
            all.contains(provider) && pick(provider) == Some(found[i]);
        let at = choose|at: int| 0 <= at < all.len() && all[at] == provider;
        assert(direct_endpoint(crate::text::trimmed(all[at].base_url)));
        assert(serves(all[at], selected));
    }
    if found.len() > 0 {
        assert(direct_endpoint(crate::text::trimmed(found[0].base_url)));
    }
    if uses_direct_endpoint(request) {
        let at = choose|i: int|
            0 <= i < all.len() && direct_endpoint(
                crate::text::trimmed((#[trigger] providers_of(request)[i]).base_url),
            ) && serves(providers_of(request)[i], selection_of(request));
        lemma_candidate(request, at);
    }
}

/// An answer is added to a task of the request or to one that it creates, and it creates one
/// exactly when the request has none.
pub proof fn law_tasks_are_created_once(
    request: Request,
    responses_api: bool,
    ids: FreshIds,
    opened: OpenedStream,
)
    requires
        opened_for(request, responses_api, ids, opened),
    ensures
        opened.opening@.len() == 2 <==> (match request.tasks {
            Some(tasks) => tasks@.len() == 0,
            None => true,
        }),
        opened.opening@.len() == 2 ==> crate::events::creates_task(
            opened.opening@[1],
            opened.stream.task_id@,
        ),
        opened.opening@.len() == 1 ==> (request.tasks matches Some(tasks) && exists|i: int|
            0 <= i < tasks@.len() && (#[trigger] tasks@[i]).id@ == opened.stream.task_id@),
{
    match request.tasks {
        Some(tasks) => {
            lemma_first_root(tasks@);
            if tasks@.len() > 0 {
                let at = if first_root(tasks@) < tasks@.len() {
                    first_root(tasks@)
                } else {
                    0
                };
                assert(tasks@[at].id@ == opened.stream.task_id@);
            }
        },
        None => {},
    }
}

proof fn lemma_first_root(tasks: Seq<Task>)
    ensures
        0 <= first_root(tasks) <= tasks.len(),
        forall|i: int| 0 <= i < first_root(tasks) ==> !is_root(#[trigger] tasks[i]),
        first_root(tasks) < tasks.len() ==> is_root(tasks[first_root(tasks)]),
    decreases tasks.len(),
{
    if tasks.len() > 0 && !is_root(tasks[0]) {
        let rest = tasks.drop_first();
        lemma_first_root(rest);
        assert forall|i: int| 0 <= i < first_root(tasks) implies !is_root(#[trigger] tasks[i]) by {
            if i > 0 {
                assert(tasks[i] == rest[i - 1]);
            }
        }
    }
}

/// Earlier messages are told in their own words and in the right role; an empty answer of the
/// agent is not told.
pub proof fn law_messages_are_told_in_their_words(message: HistoryMessage)
    ensures
        match message {
            HistoryMessage::UserQuery { query } => chat_of_history(message) == Some(
                ChatView { role: Role::User, content: query@ },
            ),
            HistoryMessage::AgentOutput { text } => if text@.len() > 0 {
                chat_of_history(message) == Some(
                    ChatView { role: Role::Assistant, content: text@ },
                )
            } else {
                chat_of_history(message) is None
            },
            HistoryMessage::ToolCall { tool_call_id, tool } => {
                &&& chat_of_history(message) matches Some(told)
                &&& told.role == Role::Assistant
                &&& (tool matches Some(words) ==> told.content == "Requested workspace tool "@
                    + tool_call_id@ + ": "@ + words@)
                &&& (tool is None ==> told.content == "Requested workspace tool "@ + tool_call_id@
                    + ": "@)
            },
            HistoryMessage::ToolCallResult { tool_call_id, result } => {
                &&& chat_of_history(message) matches Some(told)
                &&& told.role == Role::User
                &&& told.content == "[Workspace tool result for "@ + tool_call_id@ + "]\n"@
                    + result@
            },
            HistoryMessage::Other => chat_of_history(message) is None,
        },
{
    match message {
        HistoryMessage::ToolCall { tool_call_id, tool } => {
            let front = "Requested workspace tool "@ + tool_call_id@ + ": "@;
            assert(front + Seq::<char>::empty() =~= front);
        },
        _ => {},
    }
}

/// What the user enters is told as the same thing in the history is told.
pub proof fn law_inputs_are_told_like_the_history(input: UserInput, message: HistoryMessage)
    requires
        match (input, message) {
            (
                UserInput::UserQuery { query },
                HistoryMessage::UserQuery { query: earlier },
            ) => query@ == earlier@,
            (
                UserInput::ToolCallResult { tool_call_id, result },
                HistoryMessage::ToolCallResult { tool_call_id: id, result: earlier },
            ) => tool_call_id@ == id@ && result@ == earlier@,
            (UserInput::Other, HistoryMessage::Other) => true,
            _ => false,
        },
    ensures
        chat_of_input(input) == chat_of_history(message),
{
}

/// The messages of all tasks, one task after the other.
pub open spec fn history_of(tasks: Seq<Task>) -> Seq<HistoryMessage>
    decreases tasks.len(),
{
    if tasks.len() == 0 {
        Seq::empty()
    } else {
        history_of(tasks.drop_last()) + tasks.last().messages@
    }
}

/// The chat is the messages of every task in their order, told one by one, and then what the user
/// has entered. Nothing of a task but its messages matters: neither its id nor the task that it
/// depends on.
pub proof fn law_chats_tell_every_task(request: Request)
    ensures
        ({
            let history = match request.tasks {
                Some(tasks) => history_of(tasks@),
                None => Seq::empty(),
            };
            let inputs = match request.inputs {
                Some(inputs) => inputs@,
                None => Seq::empty(),
            };
            let told = history.filter_map(|message: HistoryMessage| chat_of_history(message))
                + inputs.filter_map(|input: UserInput| chat_of_input(input));
            told.len() > 0 ==> chat_of(request) == told
        }),
{
    match request.tasks {
        Some(tasks) => {
            lemma_tasks_are_told(tasks@);
        },
        None => {
            assert(Seq::<HistoryMessage>::empty().filter_map(
                |message: HistoryMessage| chat_of_history(message),
            ) =~= Seq::<ChatView>::empty());
        },
    }
    assert(Seq::<UserInput>::empty().filter_map(|input: UserInput| chat_of_input(input))
        =~= Seq::<ChatView>::empty());
}

proof fn lemma_tasks_are_told(tasks: Seq<Task>)
    ensures
        chat_of_tasks(tasks) == history_of(tasks).filter_map(
            |message: HistoryMessage| chat_of_history(message),
        ),
    decreases tasks.len(),
{
    let pick = |message: HistoryMessage| chat_of_history(message);
    if tasks.len() > 0 {
        let earlier = tasks.drop_last();
        lemma_tasks_are_told(earlier);
        crate::lists::lemma_picked_in_a_row(history_of(earlier), tasks.last().messages@, pick);
    } else {
        assert(history_of(tasks).filter_map(pick) =~= Seq::<ChatView>::empty());
    }
}

/// Every message of every task that can be told stands in the chat.
pub proof fn law_no_message_is_lost(request: Request, tasks: Vec<Task>, i: int, j: int)
    requires
        request.tasks == Some(tasks),
        0 <= i < tasks@.len(),
        0 <= j < tasks@[i].messages@.len(),
    ensures
        match tasks@[i].messages@[j] {
            HistoryMessage::UserQuery { query } => chat_of(request).contains(
                ChatView { role: Role::User, content: query@ },
            ),
            HistoryMessage::AgentOutput { text } => text@.len() > 0 ==> chat_of(request).contains(
                ChatView { role: Role::Assistant, content: text@ },
            ),
            HistoryMessage::ToolCall { tool_call_id, tool: Some(words) } => chat_of(
                request,
            ).contains(
                ChatView {
                    role: Role::Assistant,
                    content: "Requested workspace tool "@ + tool_call_id@ + ": "@ + words@,
                },
            ),
            HistoryMessage::ToolCallResult { tool_call_id, result } => chat_of(request).contains(
                ChatView {
                    role: Role::User,
                    content: "[Workspace tool result for "@ + tool_call_id@ + "]\n"@ + result@,
                },
            ),
            _ => true,
        },
{
    let message = tasks@[i].messages@[j];
    let pick = |message: HistoryMessage| chat_of_history(message);
    law_messages_are_told_in_their_words(message);
    match chat_of_history(message) {
        Some(told) => {
            let history = history_of(tasks@);
            let k = lemma_history_holds(tasks@, i, j);
            lemma_tasks_are_told(tasks@);
            crate::lists::lemma_picked_is_found(history, pick, k);
            let known = history.filter_map(pick);
            let at = choose|at: int| 0 <= at < known.len() && known[at] == told;
            assert(told_chat(request)[at] == told);
        },
        None => {},
    }
}

/// Where a message of a task stands in the history.
proof fn lemma_history_holds(tasks: Seq<Task>, i: int, j: int) -> (at: int)
    requires
        0 <= i < tasks.len(),
        0 <= j < tasks[i].messages@.len(),
    ensures
        0 <= at < history_of(tasks).len(),
        history_of(tasks)[at] == tasks[i].messages@[j],
    decreases tasks.len(),
{
    let earlier = tasks.drop_last();
    if i == earlier.len() {
        history_of(earlier).len() + j
    } else {
        lemma_history_holds(earlier, i, j)
    }
}

/// What the user has entered comes last in the chat.
pub proof fn law_the_latest_input_comes_last(request: Request, inputs: Vec<UserInput>)
    requires
        request.inputs == Some(inputs),
        inputs@.len() > 0,
    ensures
        match inputs@.last() {
            UserInput::UserQuery { query } => chat_of(request).last() == (ChatView {
                role: Role::User,
                content: query@,
            }),
            UserInput::ToolCallResult { tool_call_id, result } => chat_of(request).last()
                == (ChatView {
                role: Role::User,
                content: "[Workspace tool result for "@ + tool_call_id@ + "]\n"@ + result@,
            }),
            UserInput::Other => true,
        },
{
    let pick = |input: UserInput| chat_of_input(input);
    let told = inputs@.filter_map(pick);
    match chat_of_input(inputs@.last()) {
        Some(last) => {
            assert(told == inputs@.drop_last().filter_map(pick).push(last));
            assert(told_chat(request).last() == last);
        },
        None => {},
    }
}

/// An answer goes to the first task that depends on no other; where every task depends on one, to
/// the first of all.
pub proof fn law_answers_go_to_the_first_root(request: Request, tasks: Vec<Task>, at: int)
    requires
        request.tasks == Some(tasks),
        0 <= at <= tasks@.len(),
        tasks@.len() > 0,
        forall|i: int|
            0 <= i < at ==> ((#[trigger] tasks@[i]).parent_task_id matches Some(parent)
                && parent@.len() > 0),
    ensures
        at < tasks@.len() && tasks@[at].parent_task_id is None ==> target_task(request) == Some(
            tasks@[at].id@,
        ),
        at < tasks@.len() && (tasks@[at].parent_task_id matches Some(parent) && parent@.len() == 0)
            ==> target_task(request) == Some(tasks@[at].id@),
        at == tasks@.len() ==> target_task(request) == Some(tasks@[0].id@),
{
    lemma_first_root(tasks@);
    let found = first_root(tasks@);
    if found < at {
        assert(tasks@[found].parent_task_id is Some);
    } else if found > at {
        assert(!is_root(tasks@[at]));
    }
}

/// The endpoint that a request goes to is where the first provider that the client calls itself
/// serves the selected model: its URL and its key, and the name that the first model with the
/// selected config key has there.
pub proof fn law_requests_go_to_the_first_provider(request: Request, at: int, model: int)
    requires
        0 <= at < providers_of(request).len(),
        0 <= model < providers_of(request)[at].models.len(),
        direct_endpoint(crate::text::trimmed(providers_of(request)[at].base_url)),
        providers_of(request)[at].models[model].config_key == selection_of(request),
        forall|j: int|
            0 <= j < model ==> (#[trigger] providers_of(request)[at].models[j]).config_key
                != selection_of(request),
        forall|i: int, j: int|
            0 <= i < at && 0 <= j < providers_of(request)[i].models.len() ==> (
            #[trigger] providers_of(request)[i].models[j]).config_key != selection_of(request)
                || !direct_endpoint(crate::text::trimmed(providers_of(request)[i].base_url)),
    ensures
        candidate_endpoints(request).len() > 0,
        candidate_endpoints(request)[0].base_url == providers_of(request)[at].base_url,
        candidate_endpoints(request)[0].api_key == providers_of(request)[at].api_key,
        candidate_endpoints(request)[0].model_slug == providers_of(request)[at].models[model].slug,
{
    let all = providers_of(request);
    let selected = selection_of(request);
    let pick = |provider: crate::request::ProviderView| endpoint_at(provider, selected);
    lemma_slug_of(all[at].models, selected, model);
    assert forall|i: int| 0 <= i < at implies pick(#[trigger] all[i]) is None by {
        if direct_endpoint(crate::text::trimmed(all[i].base_url)) {
            assert forall|j: int| 0 <= j < all[i].models.len() implies (
            #[trigger] all[i].models[j]).config_key != selected by {
                assert(providers_of(request)[i].models[j].config_key != selected);
            }
            lemma_slug_of(all[i].models, selected, all[i].models.len() as int);
        }
    }
    lemma_none_picked(all, pick, at);
    lemma_first_candidate(all, pick, at);
}

/// The slug of a model is that of the first one with the selected config key.
proof fn lemma_slug_of(
    models: Seq<crate::request::CustomModelView>,
    selected: Seq<char>,
    at: int,
)
    requires
        0 <= at <= models.len(),
        forall|j: int| 0 <= j < at ==> (#[trigger] models[j]).config_key != selected,
    ensures
        at < models.len() && models[at].config_key == selected ==> slug_of(models, selected) == Some(
            models[at].slug,
        ),
        at == models.len() ==> slug_of(models, selected) is None,
    decreases models.len(),
{
    if models.len() > 0 && at > 0 {
        let rest = models.drop_first();
        assert(models[0].config_key != selected);
        assert forall|j: int| 0 <= j < at - 1 implies (#[trigger] rest[j]).config_key != selected by {
            assert(rest[j] == models[j + 1]);
        }
        lemma_slug_of(rest, selected, at - 1);
        if at < models.len() {
            assert(rest[at - 1] == models[at]);
        }
    }
}

proof fn lemma_none_picked(
    all: Seq<crate::request::ProviderView>,
    pick: spec_fn(crate::request::ProviderView) -> Option<LocalEndpointView>,
    n: int,
)
    requires
        0 <= n <= all.len(),
        forall|i: int| 0 <= i < n ==> pick(#[trigger] all[i]) is None,
    ensures
        all.take(n).filter_map(pick).len() == 0,
    decreases n,
{
    if n > 0 {
        lemma_none_picked(all, pick, n - 1);
        all.lemma_filter_map_take_succ(pick, n - 1);
        assert(pick(all[n - 1]) is None);
    }
}

/// A URL of this machine or of a private network over plain HTTP is called directly, whatever
/// follows; and so are the Codex backend and OpenCode, with or without slashes and whitespace
/// around. A URL over HTTPS is none of this machine.
pub proof fn law_direct_urls_are_known(rest: Seq<char>, url: Seq<char>)
    ensures
        direct_endpoint("http://127."@ + rest),
        direct_endpoint("http://localhost"@ + rest),
        direct_endpoint("http://0.0.0.0"@ + rest),
        direct_endpoint("http://192.168."@ + rest),
        direct_endpoint("http://10."@ + rest),
        bare_url(url) == "https://chatgpt.com/backend-api/codex"@ ==> direct_endpoint(url),
        url.len() > 0 && url[0] != 'h' && !crate::text::whitespace(url[0]) ==> !direct_endpoint(url),
        "https://"@.is_prefix_of(url) ==> !local_http_url(url),
        !(chatgpt_endpoint(url) && opencode_endpoint(url)),
{
    reveal_strlit("http://127.");
    reveal_strlit("http://localhost");
    reveal_strlit("http://0.0.0.0");
    reveal_strlit("http://192.168.");
    reveal_strlit("http://10.");
    reveal_strlit("https://");
    reveal_strlit("https://chatgpt.com/backend-api/codex");
    reveal_strlit("https://chatgpt.com/backend-api/codex/");
    reveal_strlit("https://opencode.ai/zen/");
    assert(("http://127."@ + rest).take(11) =~= "http://127."@);
    assert(("http://localhost"@ + rest).take(16) =~= "http://localhost"@);
    assert(("http://0.0.0.0"@ + rest).take(14) =~= "http://0.0.0.0"@);
    assert(("http://192.168."@ + rest).take(15) =~= "http://192.168."@);
    assert(("http://10."@ + rest).take(10) =~= "http://10."@);
    if "https://"@.is_prefix_of(url) {
        assert(url.take(8)[4] == url[4]);
        if local_http_url(url) {
            lemma_fifth_character(url);
        }
    }
    let bare = bare_url(url);
    if url.len() > 0 && url[0] != 'h' && !crate::text::whitespace(url[0]) && direct_endpoint(url) {
        if local_http_url(url) {
            lemma_fifth_character(url);
        } else {
            crate::text::lemma_trimmed_end_keeps_first(url);
            crate::text::law_trailing_characters_come_off(crate::text::trimmed(url), '/');
            assert(bare.len() > 0 ==> bare[0] == url[0]);
            if opencode_endpoint(url) {
                assert(bare.take(24)[0] == bare[0]);
            } else if "https://chatgpt.com/backend-api/codex/"@.is_prefix_of(bare) {
                assert(bare.take(38)[0] == bare[0]);
            }
        }
    }
    if chatgpt_endpoint(url) && opencode_endpoint(url) {
        assert(bare.take(24)[8] == bare[8]);
        if "https://chatgpt.com/backend-api/codex/"@.is_prefix_of(bare) {
            assert(bare.take(38)[8] == bare[8]);
        }
    }
}

proof fn lemma_fifth_character(url: Seq<char>)
    requires
        local_http_url(url),
    ensures
        url[0] == 'h',
        url[4] == ':',
{
    reveal_strlit("http://127.");
    reveal_strlit("http://localhost");
    reveal_strlit("http://0.0.0.0");
    reveal_strlit("http://192.168.");
    reveal_strlit("http://10.");
    if "http://127."@.is_prefix_of(url) {
        assert(url.take(11)[4] == url[4] && url.take(11)[0] == url[0]);
    } else if "http://localhost"@.is_prefix_of(url) {
        assert(url.take(16)[4] == url[4] && url.take(16)[0] == url[0]);
    } else if "http://0.0.0.0"@.is_prefix_of(url) {
        assert(url.take(14)[4] == url[4] && url.take(14)[0] == url[0]);
    } else if "http://192.168."@.is_prefix_of(url) {
        assert(url.take(15)[4] == url[4] && url.take(15)[0] == url[0]);
    } else {
        assert(url.take(10)[4] == url[4] && url.take(10)[0] == url[0]);
    }
}

/// The default endpoint is the Codex backend, without a key.
pub proof fn lemma_codex_is_the_default()
    ensures
        chatgpt_endpoint(default_endpoint().base_url),
        default_endpoint().api_key.len() == 0,
        default_endpoint().model_slug.len() > 0,
{
    reveal_strlit("");
    reveal_strlit("gpt-5.6-sol");
    reveal_strlit("https://chatgpt.com/backend-api/codex");
    let base = CHATGPT_BACKEND_BASE@;
    crate::text::lemma_trimmed_whole(base);
    assert(base.last() != '/');
}

/// What the event of an answer adds is the answer as it stands: without tool calls one message
/// with its text, under the ids that the stream was opened with.
pub proof fn law_events_tell_the_answer(stream: ProviderStream, event: ResponseEvent)
    requires
        stream.answered_by(event),
        stream.tool_calls@.len() == 0,
    ensures
        exists|message: crate::events::Message|
            message.id@ == stream.message_id@ && message.task_id@ == stream.task_id@ && (
            message.content matches crate::events::MessageContent::AgentOutput { text }
                && text@ == stream.output_text@) && #[trigger] crate::events::adds_messages_to(
                event,
                stream.task_id@,
                seq![message],
            ),
{
    assert(stream@.tool_calls =~= Seq::empty());
    crate::events::law_plain_answers_say_their_text(
        event,
        stream.task_id@,
        stream.message_id@,
        stream.output_text@,
    );
}

/// The Codex backend is called directly with any path below it, and OpenCode likewise; a longer name
/// in place of the backend's is another server's business.
pub proof fn law_paths_below_a_backend_belong_to_it(rest: Seq<char>)
    requires
        rest.len() > 0,
        rest.last() != '/',
        !crate::text::whitespace(rest.last()),
    ensures
        chatgpt_endpoint("https://chatgpt.com/backend-api/codex/"@ + rest),
        opencode_endpoint("https://opencode.ai/zen/"@ + rest),
        rest[0] != '/' ==> !chatgpt_endpoint("https://chatgpt.com/backend-api/codex"@ + rest),
{
    reveal_strlit("https://chatgpt.com/backend-api/codex");
    reveal_strlit("https://chatgpt.com/backend-api/codex/");
    reveal_strlit("https://opencode.ai/zen/");
    let codex = "https://chatgpt.com/backend-api/codex/"@ + rest;
    let zen = "https://opencode.ai/zen/"@ + rest;
    let longer = "https://chatgpt.com/backend-api/codex"@ + rest;
    assert(codex.last() == rest.last() && zen.last() == rest.last() && longer.last() == rest.last());
    crate::text::lemma_trimmed_whole(codex);
    crate::text::lemma_trimmed_whole(zen);
    crate::text::lemma_trimmed_whole(longer);
    assert(codex.take(38) =~= "https://chatgpt.com/backend-api/codex/"@);
    assert(zen.take(24) =~= "https://opencode.ai/zen/"@);
    if rest[0] != '/' {
        assert(longer[37] == rest[0]);
        if "https://chatgpt.com/backend-api/codex/"@.is_prefix_of(longer) {
            assert(longer.take(38)[37] == longer[37]);
        }
    }
}

/// An answer opens in the conversation that the request belongs to, under the id that was made for
/// it, and adds to the task and under the message id that it was opened with.
pub proof fn law_answers_open_in_their_conversation(
    request: Request,
    responses_api: bool,
    ids: FreshIds,
    opened: OpenedStream,
)
    requires
        opened_for(request, responses_api, ids, opened),
    ensures
        opened.opening@[0] matches ResponseEvent::Init { conversation_id, request_id, run_id } && (
        request.conversation_id matches Some(id) ==> conversation_id@ == id@) && (
        request.conversation_id is None ==> conversation_id@.len() == 0) && request_id@
            == ids.request_id@ && run_id@.len() == 0,
        opened.opening@.len() > 1 ==> (opened.opening@[1] matches ResponseEvent::ClientActions {
            actions,
        } && actions@.len() == 1 && (
        actions@[0] matches crate::events::ClientAction::CreateTask { task_id } && task_id@
            == opened.stream.task_id@)),
        opened.stream.message_id@ == ids.message_id@,
        opened.stream.responses_api == responses_api,
        opened.stream.output_text@.len() == 0 && opened.stream.buffer@.len() == 0
            && opened.stream.tool_calls@.len() == 0,
        !opened.stream.completed,
{
    assert(opened.stream@.tool_calls.len() == opened.stream.tool_calls@.len());
}

} // verus!
