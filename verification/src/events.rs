//! The events that a direct provider's answer turns into.
use crate::ids::new_uuid;
use crate::json::parse_json;
use crate::tools::{tool_from_arguments, ProviderToolCall, Tool};
use vstd::prelude::*;

verus! {

/// What a message of a task holds.
#[derive(Debug, PartialEq, Eq)]
pub enum MessageContent {
    AgentOutput { text: String },
    ToolCall { tool_call_id: String, tool: Tool },
}

pub ghost enum ContentView {
    AgentOutput { text: Seq<char> },
    ToolCall { tool_call_id: Seq<char>, tool: crate::tools::ToolView },
}

impl View for MessageContent {
    type V = ContentView;

    open spec fn view(&self) -> ContentView {
        match self {
            MessageContent::AgentOutput { text } => ContentView::AgentOutput { text: text@ },
            MessageContent::ToolCall { tool_call_id, tool } => ContentView::ToolCall {
                tool_call_id: tool_call_id@,
                tool: tool@,
            },
        }
    }
}

/// A message of a task.
#[derive(Debug, PartialEq, Eq)]
pub struct Message {
    pub id: String,
    pub task_id: String,
    pub content: MessageContent,
}

pub open spec fn message_contents(messages: Seq<Message>) -> Seq<ContentView> {
    messages.map_values(|message: Message| message.content@)
}

/// What the client is to do.
#[derive(Debug, PartialEq, Eq)]
pub enum ClientAction {
    CreateTask { task_id: String },
    AddMessagesToTask { task_id: String, messages: Vec<Message> },
}

/// An event of an answer.
#[derive(Debug, PartialEq, Eq)]
pub enum ResponseEvent {
    Init { conversation_id: String, request_id: String, run_id: String },
    ClientActions { actions: Vec<ClientAction> },
    /// The answer is done.
    Finished,
}

/// The event says that the task `task_id` is to be created.
pub open spec fn creates_task(event: ResponseEvent, task_id: Seq<char>) -> bool {
    match event {
        ResponseEvent::ClientActions { actions } => actions@.len() == 1 && match actions@[0] {
            ClientAction::CreateTask { task_id: created } => created@ == task_id,
            _ => false,
        },
        _ => false,
    }
}

/// The event that creates a task.
pub fn build_create_task_event(task_id: &str) -> (res: ResponseEvent)
    ensures
        creates_task(res, task_id@),
{
    ResponseEvent::ClientActions {
        actions: vec![ClientAction::CreateTask { task_id: task_id.to_owned() }],
    }
}

/// The message that an agent's text makes.
pub fn build_agent_message(task_id: &str, message_id: &str, text: &str) -> (res: Message)
    ensures
        res.id@ == message_id@,
        res.task_id@ == task_id@,
        res.content@ == (ContentView::AgentOutput { text: text@ }),
{
    Message {
        id: message_id.to_owned(),
        task_id: task_id.to_owned(),
        content: MessageContent::AgentOutput { text: text.to_owned() },
    }
}

/// What a tool call makes of a message: nothing when its arguments are no JSON document or do not
/// ask for a tool.
pub open spec fn call_content(call: crate::tools::CallView) -> Option<ContentView> {
    match crate::json::parsed_json(call.arguments) {
        Some(args) => match crate::tools::tool_view(call.name, args) {
            Some(tool) => Some(ContentView::ToolCall { tool_call_id: call.id, tool }),
            None => None,
        },
        None => None,
    }
}

/// The message that a tool call makes, under a fresh id.
pub fn build_tool_call_message(task_id: &str, call: &ProviderToolCall) -> (res: Option<Message>)
    ensures
        (match res {
            Some(message) => Some(message.content@),
            None => None,
        }) == call_content(call@),
        res matches Some(message) ==> message.task_id@ == task_id@ && crate::ids::is_uuid_v4(
            message.id@,
        ),
{
    let args = match parse_json(call.arguments.as_str()) {
        Some(args) => args,
        None => {
            return None;
        },
    };
    match tool_from_arguments(call.name.as_str(), &args) {
        Some(tool) => Some(
            Message {
                id: new_uuid(),
                task_id: task_id.to_owned(),
                content: MessageContent::ToolCall { tool_call_id: call.id.clone(), tool },
            },
        ),
        None => None,
    }
}

/// The tool messages that calls make, in their order.
pub open spec fn call_contents(calls: Seq<crate::tools::CallView>) -> Seq<ContentView> {
    calls.filter_map(|call: crate::tools::CallView| call_content(call))
}

/// `messages` are what an answer adds to the task: the text as one message if no tool was called,
/// else the tool calls.
pub open spec fn answer_messages(
    task_id: Seq<char>,
    message_id: Seq<char>,
    text: Seq<char>,
    calls: Seq<crate::tools::CallView>,
    messages: Seq<Message>,
) -> bool {
    &&& forall|i: int| 0 <= i < messages.len() ==> (#[trigger] messages[i]).task_id@ == task_id
    &&& if calls.len() == 0 {
        &&& message_contents(messages) == seq![ContentView::AgentOutput { text }]
        &&& messages[0].id@ == message_id
    } else {
        &&& message_contents(messages) == call_contents(calls)
        &&& forall|i: int|
            0 <= i < messages.len() ==> crate::ids::is_uuid_v4((#[trigger] messages[i]).id@)
    }
}

/// The event adds the messages of an answer to the task.
pub open spec fn adds_answer(
    event: ResponseEvent,
    task_id: Seq<char>,
    message_id: Seq<char>,
    text: Seq<char>,
    calls: Seq<crate::tools::CallView>,
) -> bool {
    match event {
        ResponseEvent::ClientActions { actions } => actions@.len() == 1 && match actions@[0] {
            ClientAction::AddMessagesToTask { task_id: target, messages } => target@ == task_id
                && answer_messages(task_id, message_id, text, calls, messages@),
            _ => false,
        },
        _ => false,
    }
}

/// The event that adds an answer to the task.
pub fn build_add_message_event(
    task_id: &str,
    message_id: &str,
    text: &str,
    tool_calls: &Vec<ProviderToolCall>,
) -> (res: ResponseEvent)
    ensures
        adds_answer(res, task_id@, message_id@, text@, crate::tools::call_views(tool_calls@)),
{
    let mut messages: Vec<Message> = Vec::new();
    let ghost all = crate::tools::call_views(tool_calls@);
    assert(all.len() == tool_calls@.len());
    let n: usize = tool_calls.len();
    if n == 0 {
        messages.push(build_agent_message(task_id, message_id, text));
        assert(message_contents(messages@) =~= seq![ContentView::AgentOutput { text: text@ }]);
    } else {
        let ghost pick = |call: crate::tools::CallView| call_content(call);
        let mut i: usize = 0;
        assert(message_contents(messages@) =~= all.take(0).filter_map(pick));
        while i < n
            invariant
                i <= n == tool_calls@.len(),
                all == crate::tools::call_views(tool_calls@),
                pick == (|call: crate::tools::CallView| call_content(call)),
                message_contents(messages@) == all.take(i as int).filter_map(pick),
                forall|j: int|
                    0 <= j < messages@.len() ==> (#[trigger] messages@[j]).task_id@ == task_id@
                        && crate::ids::is_uuid_v4(messages@[j].id@),
            decreases n - i,
        {
            proof {
                all.lemma_filter_map_take_succ(pick, i as int);
            }
            assert(all[i as int] == tool_calls@[i as int]@);
            match build_tool_call_message(task_id, &tool_calls[i]) {
                Some(message) => {
                    messages.push(message);
                },
                None => {},
            }
            assert(message_contents(messages@) =~= all.take(i + 1).filter_map(pick));
            i += 1;
        }
        assert(all.take(n as int) =~= all);
    }
    ResponseEvent::ClientActions {
        actions: vec![ClientAction::AddMessagesToTask { task_id: task_id.to_owned(), messages }],
    }
}

/// An answer adds at most one message per tool call, and exactly one if no tool was called.
pub proof fn law_answers_are_not_padded(
    task_id: Seq<char>,
    message_id: Seq<char>,
    text: Seq<char>,
    calls: Seq<crate::tools::CallView>,
    messages: Seq<Message>,
)
    requires
        answer_messages(task_id, message_id, text, calls, messages),
    ensures
        calls.len() == 0 ==> messages.len() == 1,
        calls.len() > 0 ==> messages.len() <= calls.len(),
{
    assert(message_contents(messages).len() == messages.len());
    lemma_no_more_contents_than_calls(calls);
}

proof fn lemma_no_more_contents_than_calls(calls: Seq<crate::tools::CallView>)
    ensures
        call_contents(calls).len() <= calls.len(),
    decreases calls.len(),
{
    if calls.len() > 0 {
        lemma_no_more_contents_than_calls(calls.drop_last());
    }
}

/// `event` adds `messages` to the task `task_id` and does nothing else.
pub open spec fn adds_messages_to(
    event: ResponseEvent,
    task_id: Seq<char>,
    messages: Seq<Message>,
) -> bool {
    match event {
        ResponseEvent::ClientActions { actions } => {
            &&& actions@.len() == 1
            &&& actions@[0] matches ClientAction::AddMessagesToTask { task_id: target, messages: added }
            &&& target@ == task_id
            &&& added@ == messages
        },
        _ => false,
    }
}

/// An answer without tool calls is one message of the task, under the id that was meant for it,
/// and says the text as it is.
pub proof fn law_plain_answers_say_their_text(
    event: ResponseEvent,
    task_id: Seq<char>,
    message_id: Seq<char>,
    text: Seq<char>,
)
    requires
        adds_answer(event, task_id, message_id, text, Seq::empty()),
    ensures
        exists|message: Message|
            message.id@ == message_id && message.task_id@ == task_id && (
            message.content matches MessageContent::AgentOutput { text: said } && said@ == text)
                && #[trigger] adds_messages_to(event, task_id, seq![message]),
{
    match event {
        ResponseEvent::ClientActions { actions } => {
            match actions@[0] {
                ClientAction::AddMessagesToTask { task_id: target, messages } => {
                    let contents = message_contents(messages@);
                    assert(contents.len() == 1);
                    assert(messages@ =~= seq![messages@[0]]);
                    assert(contents[0] == messages@[0].content@);
                    assert(adds_messages_to(event, task_id, seq![messages@[0]]));
                },
                _ => {},
            }
        },
        _ => {},
    }
}

/// Every call of an answer that is understood is added to the task under its own id, in its place:
/// `tools[i]` is what the `i`th call asks for.
pub proof fn law_understood_calls_are_added(
    event: ResponseEvent,
    task_id: Seq<char>,
    message_id: Seq<char>,
    text: Seq<char>,
    calls: Seq<crate::tools::CallView>,
    tools: Seq<crate::tools::ToolView>,
)
    requires
        adds_answer(event, task_id, message_id, text, calls),
        calls.len() > 0,
        tools.len() == calls.len(),
        forall|i: int|
            0 <= i < calls.len() ==> (crate::json::parsed_json(
                (#[trigger] calls[i]).arguments,
            ) matches Some(args) && crate::tools::tool_view(calls[i].name, args) == Some(
                tools[i],
            )),
    ensures
        exists|messages: Seq<Message>|
            messages.len() == calls.len() && (forall|i: int|
                0 <= i < calls.len() ==> (#[trigger] messages[i]).task_id@ == task_id && (
                messages[i].content matches MessageContent::ToolCall { tool_call_id, tool }
                    && tool_call_id@ == calls[i].id && tool@ == tools[i]))
                && #[trigger] adds_messages_to(event, task_id, messages),
{
    match event {
        ResponseEvent::ClientActions { actions } => {
            match actions@[0] {
                ClientAction::AddMessagesToTask { task_id: target, messages } => {
                    let pick = |call: crate::tools::CallView| call_content(call);
                    assert forall|i: int| 0 <= i < calls.len() implies pick(#[trigger] calls[i])
                        == Some(
                        ContentView::ToolCall { tool_call_id: calls[i].id, tool: tools[i] },
                    ) by {
                        assert(crate::json::parsed_json(calls[i].arguments) is Some);
                    }
                    crate::lists::lemma_all_picked(calls, pick);
                    let added = messages@;
                    assert(message_contents(added).len() == calls.len());
                    assert forall|i: int| 0 <= i < calls.len() implies (
                    #[trigger] added[i]).task_id@ == task_id && (
                    added[i].content matches MessageContent::ToolCall { tool_call_id, tool }
                        && tool_call_id@ == calls[i].id && tool@ == tools[i]) by {
                        assert(message_contents(added)[i] == added[i].content@);
                        assert(Some(calls.filter_map(pick)[i]) == pick(calls[i]));
                    }
                    assert(adds_messages_to(event, task_id, added));
                },
                _ => {},
            }
        },
        _ => {},
    }
}

/// A call whose arguments are no document, or that asks for no known tool, is left out; the others
/// are added all the same.
pub proof fn law_unreadable_calls_are_left_out(
    front: Seq<crate::tools::CallView>,
    call: crate::tools::CallView,
    back: Seq<crate::tools::CallView>,
)
    requires
        match crate::json::parsed_json(call.arguments) {
            Some(args) => crate::tools::tool_view(call.name, args) is None,
            None => true,
        },
    ensures
        call_contents(front + seq![call] + back) == call_contents(front) + call_contents(back),
{
    let pick = |call: crate::tools::CallView| call_content(call);
    crate::lists::lemma_picked_in_a_row(front + seq![call], back, pick);
    crate::lists::lemma_picked_in_a_row(front, seq![call], pick);
    Seq::<crate::tools::CallView>::lemma_filter_map_singleton(call, pick);
    assert(call_contents(front) + Seq::<ContentView>::empty() =~= call_contents(front));
}

/// An answer with tool calls consists of those alone that are understood: its text is not added, and
/// where none is understood nothing is.
pub proof fn law_answers_with_calls_are_calls(
    event: ResponseEvent,
    task_id: Seq<char>,
    message_id: Seq<char>,
    text: Seq<char>,
    calls: Seq<crate::tools::CallView>,
    messages: Seq<Message>,
    i: int,
)
    requires
        adds_answer(event, task_id, message_id, text, calls),
        adds_messages_to(event, task_id, messages),
        calls.len() > 0,
        0 <= i < messages.len(),
    ensures
        messages[i].content matches MessageContent::ToolCall { tool_call_id, tool }
            && exists|j: int|
            0 <= j < calls.len() && (#[trigger] calls[j]).id == tool_call_id@ && (
            crate::json::parsed_json(calls[j].arguments) matches Some(args)
                && crate::tools::tool_view(calls[j].name, args) == Some(tool@)),
{
    let pick = |call: crate::tools::CallView| call_content(call);
    let contents = message_contents(messages);
    assert(contents[i] == messages[i].content@);
    assert(calls.filter_map(pick).contains(contents[i]));
    calls.lemma_filter_map_contains(pick, contents[i]);
    let call = choose|call: crate::tools::CallView| #[trigger]
        calls.contains(call) && pick(call) == Some(contents[i]);
    let j = choose|j: int| 0 <= j < calls.len() && calls[j] == call;
    assert(calls[j].id == call.id);
}

} // verus!
