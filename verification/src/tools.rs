//! The tool calls of a provider's answer: how they are read from the chunks of a stream, put
//! together and turned into workspace tools.
use crate::json::{
    as_bool, at_zero, collect_texts_among, collect_texts_under, items, member, text_member,
    Json,
};
use crate::text::{decimal_text, same_text};
use vstd::prelude::*;

verus! {

/// A tool call as the provider wrote it; its arguments are the text of a JSON document.
#[derive(Debug, Clone, PartialEq, Eq)]
pub struct ProviderToolCall {
    pub id: String,
    pub name: String,
    pub arguments: String,
}

pub ghost struct CallView {
    pub id: Seq<char>,
    pub name: Seq<char>,
    pub arguments: Seq<char>,
}

impl View for ProviderToolCall {
    type V = CallView;

    open spec fn view(&self) -> CallView {
        CallView { id: self.id@, name: self.name@, arguments: self.arguments@ }
    }
}

pub open spec fn call_views(calls: Seq<ProviderToolCall>) -> Seq<CallView> {
    calls.map_values(|call: ProviderToolCall| call@)
}

pub open spec fn opt_call(call: Option<ProviderToolCall>) -> Option<CallView> {
    match call {
        Some(call) => Some(call@),
        None => None,
    }
}

/// The call whose `call_id`, `name` and `arguments` are members of `document`; nothing unless all
/// three are texts.
pub open spec fn whole_call(document: Option<crate::json::JsonView>) -> Option<CallView> {
    let id = crate::json::text_view(crate::json::member_view(document, "call_id"@));
    let name = crate::json::text_view(crate::json::member_view(document, "name"@));
    let arguments = crate::json::text_view(crate::json::member_view(document, "arguments"@));
    match (id, name, arguments) {
        (Some(id), Some(name), Some(arguments)) => Some(CallView { id, name, arguments }),
        _ => None,
    }
}

/// The call in a chunk of the Responses API, which sends a call once it is complete.
pub open spec fn responses_call(chunk: crate::json::JsonView) -> Option<CallView> {
    let kind = crate::json::text_view(crate::json::member_view(Some(chunk), "type"@));
    let item = crate::json::member_view(Some(chunk), "item"@);
    if kind == Some("response.function_call_arguments.done"@) {
        whole_call(Some(chunk))
    } else if kind == Some("response.output_item.done"@) && crate::json::text_view(
        crate::json::member_view(item, "type"@),
    ) == Some("function_call"@) {
        whole_call(item)
    } else {
        None
    }
}

/// The text member `key` of `document`, or the empty text.
pub open spec fn text_or_empty(
    document: Option<crate::json::JsonView>,
    key: Seq<char>,
) -> Seq<char> {
    match crate::json::text_view(crate::json::member_view(document, key)) {
        Some(text) => text,
        None => Seq::empty(),
    }
}

/// The `delta` of the first choice in a chunk of the Chat Completions API.
pub open spec fn first_delta(chunk: crate::json::JsonView) -> Option<crate::json::JsonView> {
    crate::json::member_view(
        crate::json::zero_view(crate::json::member_view(Some(chunk), "choices"@)),
        "delta"@,
    )
}

/// The call, or the fragment of one, in a chunk of the Chat Completions API; what the chunk does
/// not name is empty.
pub open spec fn completions_call(chunk: crate::json::JsonView) -> Option<CallView> {
    let call = crate::json::zero_view(
        crate::json::member_view(first_delta(chunk), "tool_calls"@),
    );
    let function = crate::json::member_view(call, "function"@);
    if function is Some {
        Some(
            CallView {
                id: text_or_empty(call, "id"@),
                name: text_or_empty(function, "name"@),
                arguments: text_or_empty(function, "arguments"@),
            },
        )
    } else {
        None
    }
}

/// The call in a chunk.
pub open spec fn call_in(chunk: crate::json::JsonView, responses_api: bool) -> Option<CallView> {
    if responses_api {
        responses_call(chunk)
    } else {
        completions_call(chunk)
    }
}

fn read_whole_call(document: Option<&Json>) -> (res: Option<ProviderToolCall>)
    ensures
        opt_call(res) == whole_call(crate::json::seen(document)),
{
    match (
        text_member(document, "call_id"),
        text_member(document, "name"),
        text_member(document, "arguments"),
    ) {
        (Some(id), Some(name), Some(arguments)) => Some(
            ProviderToolCall {
                id: id.to_owned(),
                name: name.to_owned(),
                arguments: arguments.to_owned(),
            },
        ),
        _ => None,
    }
}

fn read_text_or_empty(document: Option<&Json>, key: &str) -> (res: String)
    ensures
        res@ == text_or_empty(crate::json::seen(document), key@),
{
    match text_member(document, key) {
        Some(text) => text.to_owned(),
        None => String::new(),
    }
}

/// The `delta` of the first choice.
pub fn read_first_delta(chunk: &Json) -> (res: Option<&Json>)
    ensures
        crate::json::seen(res) == first_delta(chunk@),
{
    member(at_zero(member(Some(chunk), "choices")), "delta")
}

/// Reads the call in a chunk.
pub fn extract_tool_call(chunk: &Json, responses_api: bool) -> (res: Option<ProviderToolCall>)
    ensures
        opt_call(res) == call_in(chunk@, responses_api),
{
    if responses_api {
        let kind = match text_member(Some(chunk), "type") {
            Some(kind) => kind,
            None => {
                return None;
            },
        };
        if same_text(kind, "response.function_call_arguments.done") {
            return read_whole_call(Some(chunk));
        }
        if same_text(kind, "response.output_item.done") {
            let item = member(Some(chunk), "item");
            let is_call = match text_member(item, "type") {
                Some(kind) => same_text(kind, "function_call"),
                None => false,
            };
            if is_call {
                return read_whole_call(item);
            }
        }
        None
    } else {
        let call = at_zero(member(read_first_delta(chunk), "tool_calls"));
        let function = member(call, "function");
        if function.is_some() {
            Some(
                ProviderToolCall {
                    id: read_text_or_empty(call, "id"),
                    name: read_text_or_empty(function, "name"),
                    arguments: read_text_or_empty(function, "arguments"),
                },
            )
        } else {
            None
        }
    }
}

impl CallView {
    /// Nothing but arguments: a fragment that continues the call before it.
    pub open spec fn is_fragment(self) -> bool {
        self.id.len() == 0 && self.name.len() == 0
    }

    /// Nothing at all.
    pub open spec fn is_empty(self) -> bool {
        self.is_fragment() && self.arguments.len() == 0
    }

    /// The call with `incoming` merged into it: what it has not named yet, and more arguments.
    pub open spec fn extended(self, incoming: CallView) -> CallView {
        CallView {
            id: if self.id.len() == 0 {
                incoming.id
            } else {
                self.id
            },
            name: if self.name.len() == 0 {
                incoming.name
            } else {
                self.name
            },
            arguments: self.arguments + incoming.arguments,
        }
    }

    /// `incoming`, which goes by `key`, continues this call: it has that id, or it has no id and
    /// the same name.
    pub open spec fn continues(self, key: Seq<char>, incoming: CallView) -> bool {
        self.id == key || (self.id.len() == 0 && incoming.name.len() > 0 && self.name
            == incoming.name)
    }
}

/// The id by which an incoming call is looked for: its own, or else the number of calls so far.
pub open spec fn merge_key(calls: Seq<CallView>, incoming: CallView) -> Seq<char> {
    if incoming.id.len() == 0 {
        crate::text::decimal(calls.len())
    } else {
        incoming.id
    }
}

/// The position of the first call that `incoming` continues; the number of calls if there is none.
pub open spec fn continued_call(calls: Seq<CallView>, key: Seq<char>, incoming: CallView) -> int
    decreases calls.len(),
{
    if calls.len() == 0 || calls[0].continues(key, incoming) {
        0
    } else {
        1 + continued_call(calls.drop_first(), key, incoming)
    }
}

/// The position at which `incoming` ends up: that of the call it continues, or behind all calls.
pub open spec fn merge_position(calls: Seq<CallView>, incoming: CallView) -> int {
    if incoming.is_fragment() && calls.len() > 0 {
        calls.len() - 1
    } else {
        continued_call(calls, merge_key(calls, incoming), incoming)
    }
}

/// `calls` with `incoming` merged into them.
///
/// OpenAI-compatible streaming sends the first tool chunk with the id/name, then sends argument
/// fragments with neither field populated. Those fragments belong to the most recently opened tool
/// call.
pub open spec fn merged(calls: Seq<CallView>, incoming: CallView) -> Seq<CallView> {
    let at = merge_position(calls, incoming);
    if incoming.is_empty() {
        calls
    } else if at < calls.len() {
        calls.update(at, calls[at].extended(incoming))
    } else {
        calls.push(incoming)
    }
}

proof fn lemma_continued_call(calls: Seq<CallView>, key: Seq<char>, incoming: CallView)
    ensures
        0 <= continued_call(calls, key, incoming) <= calls.len(),
        forall|i: int|
            0 <= i < continued_call(calls, key, incoming) ==> !(#[trigger] calls[i]).continues(
                key,
                incoming,
            ),
        continued_call(calls, key, incoming) < calls.len() ==> calls[continued_call(
            calls,
            key,
            incoming,
        )].continues(key, incoming),
    decreases calls.len(),
{
    if calls.len() == 0 || calls[0].continues(key, incoming) {
    } else {
        let rest = calls.drop_first();
        lemma_continued_call(rest, key, incoming);
        assert forall|i: int| 0 <= i < continued_call(calls, key, incoming) implies !(
        #[trigger] calls[i]).continues(key, incoming) by {
            if i > 0 {
                assert(calls[i] == rest[i - 1]);
            }
        }
    }
}

fn find_continued_call(calls: &Vec<ProviderToolCall>, key: &str, incoming: &ProviderToolCall) -> (
res: usize)
    ensures
        res == continued_call(call_views(calls@), key@, incoming@),
{
    let ghost all = call_views(calls@);
    let n: usize = calls.len();
    let named = !incoming.name.as_str().is_empty();
    let mut i: usize = 0;
    assert(all.skip(0) =~= all);
    while i < n
        invariant
            i <= n == calls@.len(),
            all == call_views(calls@),
            named == (incoming@.name.len() > 0),
            continued_call(all, key@, incoming@) == i + continued_call(
                all.skip(i as int),
                key@,
                incoming@,
            ),
        decreases n - i,
    {
        let call = &calls[i];
        assert(all.skip(i as int)[0] == call@);
        if same_text(call.id.as_str(), key) || (call.id.as_str().is_empty() && named && same_text(
            call.name.as_str(),
            incoming.name.as_str(),
        )) {
            return i;
        }
        assert(all.skip(i as int).drop_first() =~= all.skip(i + 1));
        i += 1;
    }
    n
}

/// Merges an incoming call into the calls so far.
pub fn merge_tool_call(calls: &mut Vec<ProviderToolCall>, incoming: ProviderToolCall)
    ensures
        call_views(final(calls)@) == merged(call_views(old(calls)@), incoming@),
{
    let ghost before = call_views(calls@);
    assert(before.len() == calls@.len());
    let fragment = incoming.id.as_str().is_empty() && incoming.name.as_str().is_empty();
    if fragment && incoming.arguments.as_str().is_empty() {
        return;
    }
    let n: usize = calls.len();
    let at: usize = if fragment && n > 0 {
        n - 1
    } else {
        let key = if incoming.id.as_str().is_empty() {
            decimal_text(n)
        } else {
            incoming.id.clone()
        };
        proof {
            lemma_continued_call(before, key@, incoming@);
        }
        find_continued_call(calls, key.as_str(), &incoming)
    };
    assert(at == merge_position(before, incoming@));
    if at < n {
        let mut arguments = calls[at].arguments.clone();
        arguments.append(incoming.arguments.as_str());
        let id = if calls[at].id.as_str().is_empty() {
            incoming.id.clone()
        } else {
            calls[at].id.clone()
        };
        let name = if calls[at].name.as_str().is_empty() {
            incoming.name.clone()
        } else {
            calls[at].name.clone()
        };
        let extended = ProviderToolCall { id, name, arguments };
        assert(extended@ == before[at as int].extended(incoming@));
        calls.set(at, extended);
        assert(call_views(calls@) =~= merged(before, incoming@));
    } else {
        calls.push(incoming);
        assert(call_views(calls@) =~= merged(before, incoming@));
    }
}

/// Merging loses nothing: every call keeps its place and, once it has them, its id and its name;
/// arguments are only added, and only to the one call that the incoming one continues.
pub proof fn law_merging_loses_nothing(calls: Seq<CallView>, incoming: CallView)
    ensures
        calls.len() <= merged(calls, incoming).len() <= calls.len() + 1,
        forall|i: int|
            0 <= i < calls.len() ==> {
                let after = #[trigger] merged(calls, incoming)[i];
                &&& calls[i].arguments.is_prefix_of(after.arguments)
                &&& calls[i].id.len() > 0 ==> after.id == calls[i].id
                &&& calls[i].name.len() > 0 ==> after.name == calls[i].name
                &&& i != merge_position(calls, incoming) ==> after == calls[i]
            },
        !incoming.is_empty() ==> {
            let at = merge_position(calls, incoming);
            &&& 0 <= at < merged(calls, incoming).len()
            &&& incoming.arguments.is_suffix_of(merged(calls, incoming)[at].arguments)
        },
{
    lemma_continued_call(calls, merge_key(calls, incoming), incoming);
    let at = merge_position(calls, incoming);
    if !incoming.is_empty() {
        let after = merged(calls, incoming)[at].arguments;
        if at < calls.len() {
            let before = calls[at].arguments;
            assert(after =~= before + incoming.arguments);
            assert(after.subrange(0, before.len() as int) =~= before);
            assert(after.subrange(before.len() as int, after.len() as int) =~= incoming.arguments);
        } else {
            assert(after.subrange(0, after.len() as int) =~= incoming.arguments);
        }
    }
}

/// A call that is sent in fragments, the first with its id and name and the others with arguments
/// alone, comes out as one call with all arguments in a row.
pub proof fn law_fragments_join_the_latest_call(
    calls: Seq<CallView>,
    opening: CallView,
    fragment: Seq<char>,
)
    requires
        !opening.is_fragment(),
        continued_call(calls, merge_key(calls, opening), opening) == calls.len(),
    ensures
        merged(
            merged(calls, opening),
            CallView { id: Seq::empty(), name: Seq::empty(), arguments: fragment },
        ) == calls.push(
            CallView {
                id: opening.id,
                name: opening.name,
                arguments: opening.arguments + fragment,
            },
        ),
{
    let more = CallView { id: Seq::empty(), name: Seq::empty(), arguments: fragment };
    let opened = merged(calls, opening);
    assert(opened == calls.push(opening));
    if more.is_empty() {
        assert(opening.arguments + fragment =~= opening.arguments);
    } else {
        assert(opening.id.len() == 0 ==> opening.id =~= Seq::empty());
        assert(opening.name.len() == 0 ==> opening.name =~= Seq::empty());
        assert(opening.extended(more) == CallView {
            id: opening.id,
            name: opening.name,
            arguments: opening.arguments + fragment,
        });
    }
    assert(merged(opened, more) =~= calls.push(
        CallView { id: opening.id, name: opening.name, arguments: opening.arguments + fragment },
    ));
}

/// A workspace tool with its arguments.
#[derive(Debug, Clone, PartialEq, Eq)]
pub enum Tool {
    ReadFiles { files: Vec<String> },
    Grep { queries: Vec<String>, path: String },
    FileGlobV2 { patterns: Vec<String>, search_dir: String },
    RunShellCommand { command: String, is_read_only: bool },
}

pub ghost enum ToolView {
    ReadFiles { files: Seq<Seq<char>> },
    Grep { queries: Seq<Seq<char>>, path: Seq<char> },
    FileGlobV2 { patterns: Seq<Seq<char>>, search_dir: Seq<char> },
    RunShellCommand { command: Seq<char>, is_read_only: bool },
}

impl View for Tool {
    type V = ToolView;

    open spec fn view(&self) -> ToolView {
        match self {
            Tool::ReadFiles { files } => ToolView::ReadFiles { files: crate::text::texts(files@) },
            Tool::Grep { queries, path } => ToolView::Grep {
                queries: crate::text::texts(queries@),
                path: path@,
            },
            Tool::FileGlobV2 { patterns, search_dir } => ToolView::FileGlobV2 {
                patterns: crate::text::texts(patterns@),
                search_dir: search_dir@,
            },
            Tool::RunShellCommand { command, is_read_only } => ToolView::RunShellCommand {
                command: command@,
                is_read_only: *is_read_only,
            },
        }
    }
}

/// The items of the array under `key`.
pub open spec fn list_under(
    args: crate::json::JsonView,
    key: Seq<char>,
) -> Option<Seq<crate::json::JsonView>> {
    crate::json::items_view(crate::json::member_view(Some(args), key))
}

/// The text under `key`.
pub open spec fn text_under(args: crate::json::JsonView, key: Seq<char>) -> Option<Seq<char>> {
    crate::json::text_view(crate::json::member_view(Some(args), key))
}

/// The tool that `name` and `args` ask for; nothing for an unknown tool or without the arguments
/// that it requires. Items of a list that are not of the expected form are left out.
pub open spec fn tool_view(name: Seq<char>, args: crate::json::JsonView) -> Option<ToolView> {
    if name == "read_files"@ {
        match list_under(args, "files"@) {
            Some(list) => Some(
                ToolView::ReadFiles { files: crate::json::texts_under(list, "name"@) },
            ),
            None => None,
        }
    } else if name == "grep"@ {
        match (list_under(args, "queries"@), text_under(args, "path"@)) {
            (Some(list), Some(path)) => Some(
                ToolView::Grep { queries: crate::json::texts_among(list), path },
            ),
            _ => None,
        }
    } else if name == "file_glob"@ {
        match (list_under(args, "patterns"@), text_under(args, "path"@)) {
            (Some(list), Some(search_dir)) => Some(
                ToolView::FileGlobV2 { patterns: crate::json::texts_among(list), search_dir },
            ),
            _ => None,
        }
    } else if name == "run_shell_command"@ {
        match text_under(args, "command"@) {
            Some(command) => Some(
                ToolView::RunShellCommand {
                    command,
                    is_read_only: crate::json::bool_view(
                        crate::json::member_view(Some(args), "is_read_only"@),
                    ) == Some(true),
                },
            ),
            None => None,
        }
    } else {
        None
    }
}

pub open spec fn opt_tool(tool: Option<Tool>) -> Option<ToolView> {
    match tool {
        Some(tool) => Some(tool@),
        None => None,
    }
}

/// The tool that a call asks for with the arguments `args`.
pub fn tool_from_arguments(name: &str, args: &Json) -> (res: Option<Tool>)
    ensures
        opt_tool(res) == tool_view(name@, args@),
{
    if same_text(name, "read_files") {
        match items(member(Some(args), "files")) {
            Some(list) => Some(Tool::ReadFiles { files: collect_texts_under(list, "name") }),
            None => None,
        }
    } else if same_text(name, "grep") {
        match (items(member(Some(args), "queries")), text_member(Some(args), "path")) {
            (Some(list), Some(path)) => Some(
                Tool::Grep { queries: collect_texts_among(list), path: path.to_owned() },
            ),
            _ => None,
        }
    } else if same_text(name, "file_glob") {
        match (items(member(Some(args), "patterns")), text_member(Some(args), "path")) {
            (Some(list), Some(path)) => Some(
                Tool::FileGlobV2 {
                    patterns: collect_texts_among(list),
                    search_dir: path.to_owned(),
                },
            ),
            _ => None,
        }
    } else if same_text(name, "run_shell_command") {
        match text_member(Some(args), "command") {
            Some(command) => Some(
                Tool::RunShellCommand {
                    command: command.to_owned(),
                    is_read_only: match as_bool(member(Some(args), "is_read_only")) {
                        Some(flag) => flag,
                        None => false,
                    },
                },
            ),
            None => None,
        }
    } else {
        None
    }
}

/// A call with an id that no call so far has opens a call of its own: it never changes a call that
/// has another id, whatever the names are, nor one without an id that has another name.
pub proof fn law_new_ids_open_new_calls(calls: Seq<CallView>, incoming: CallView)
    requires
        incoming.id.len() > 0,
        forall|i: int|
            0 <= i < calls.len() ==> (#[trigger] calls[i]).id != incoming.id && (calls[i].id.len()
                > 0 || incoming.name.len() == 0 || calls[i].name != incoming.name),
    ensures
        merged(calls, incoming) == calls.push(incoming),
{
    lemma_continued_call(calls, merge_key(calls, incoming), incoming);
    let at = merge_position(calls, incoming);
    if at < calls.len() {
        assert(calls[at].id != incoming.id);
    }
}

/// A call with an id that another call has is more of that call: its arguments come behind those
/// that are there, and nothing else changes but a name that was missing.
pub proof fn law_known_ids_continue_their_call(
    calls: Seq<CallView>,
    incoming: CallView,
    at: int,
)
    requires
        0 <= at < calls.len(),
        incoming.id.len() > 0,
        calls[at].id == incoming.id,
        forall|i: int|
            0 <= i < at ==> (#[trigger] calls[i]).id != incoming.id && (calls[i].id.len() > 0
                || calls[i].name != incoming.name),
    ensures
        merged(calls, incoming) == calls.update(
            at,
            CallView {
                id: incoming.id,
                name: if calls[at].name.len() > 0 {
                    calls[at].name
                } else {
                    incoming.name
                },
                arguments: calls[at].arguments + incoming.arguments,
            },
        ),
{
    lemma_continued_call(calls, merge_key(calls, incoming), incoming);
    let found = merge_position(calls, incoming);
    if found < at {
        assert(calls[found].id != incoming.id);
    } else if found > at {
        assert(!calls[at].continues(merge_key(calls, incoming), incoming));
    }
}

/// A call that has no id yet takes the id of the next one with its name.
pub proof fn law_missing_ids_are_filled_in(calls: Seq<CallView>, incoming: CallView, at: int)
    requires
        0 <= at < calls.len(),
        calls[at].id.len() == 0,
        incoming.name.len() > 0,
        calls[at].name == incoming.name,
        forall|i: int|
            0 <= i < at ==> (#[trigger] calls[i]).id.len() > 0 && calls[i].id != incoming.id
                && calls[i].id != crate::text::decimal(calls.len()),
    ensures
        merged(calls, incoming) == calls.update(
            at,
            CallView {
                id: incoming.id,
                name: incoming.name,
                arguments: calls[at].arguments + incoming.arguments,
            },
        ),
{
    lemma_continued_call(calls, merge_key(calls, incoming), incoming);
    let found = merge_position(calls, incoming);
    if found < at {
        assert(calls[found].id.len() > 0);
    } else if found > at {
        assert(!calls[at].continues(merge_key(calls, incoming), incoming));
    }
}

/// A call with a name but no id opens a call of its own, unless a call so far has that name and no
/// id, or has the number of the calls as its id.
pub proof fn law_named_calls_without_id_are_new(calls: Seq<CallView>, incoming: CallView)
    requires
        incoming.id.len() == 0,
        incoming.name.len() > 0,
        forall|i: int|
            0 <= i < calls.len() ==> (#[trigger] calls[i]).id != crate::text::decimal(calls.len())
                && (calls[i].id.len() > 0 || calls[i].name != incoming.name),
    ensures
        merged(calls, incoming) == calls.push(incoming),
{
    lemma_continued_call(calls, merge_key(calls, incoming), incoming);
    let at = merge_position(calls, incoming);
    if at < calls.len() {
        assert(calls[at].id != crate::text::decimal(calls.len()));
    }
}

/// A call with a name but no id goes by the number of the calls so far: it is more of the call that
/// has this number as its id.
pub proof fn law_calls_without_id_go_by_their_number(
    calls: Seq<CallView>,
    incoming: CallView,
    at: int,
)
    requires
        0 <= at < calls.len(),
        incoming.id.len() == 0,
        incoming.name.len() > 0,
        calls[at].id == crate::text::decimal(calls.len()),
        forall|i: int|
            0 <= i < at ==> (#[trigger] calls[i]).id != crate::text::decimal(calls.len()) && (
            calls[i].id.len() > 0 || calls[i].name != incoming.name),
    ensures
        merged(calls, incoming) == calls.update(
            at,
            CallView {
                id: calls[at].id,
                name: if calls[at].name.len() > 0 {
                    calls[at].name
                } else {
                    incoming.name
                },
                arguments: calls[at].arguments + incoming.arguments,
            },
        ),
{
    lemma_continued_call(calls, merge_key(calls, incoming), incoming);
    crate::text::lemma_decimal(calls.len());
    let found = merge_position(calls, incoming);
    if found < at {
        assert(calls[found].id != crate::text::decimal(calls.len()));
    } else if found > at {
        assert(!calls[at].continues(merge_key(calls, incoming), incoming));
    }
}

/// Arguments without id and name go behind the arguments of the latest call, and to no other.
pub proof fn law_bare_arguments_go_to_the_latest_call(calls: Seq<CallView>, arguments: Seq<char>)
    requires
        calls.len() > 0,
    ensures
        merged(calls, CallView { id: Seq::empty(), name: Seq::empty(), arguments }) == calls.update(
            calls.len() - 1,
            CallView {
                id: calls.last().id,
                name: calls.last().name,
                arguments: calls.last().arguments + arguments,
            },
        ),
{
    let incoming = CallView { id: Seq::empty(), name: Seq::empty(), arguments };
    let last = calls.last();
    assert(last.id.len() == 0 ==> last.id =~= Seq::empty());
    assert(last.name.len() == 0 ==> last.name =~= Seq::empty());
    if arguments.len() == 0 {
        assert(last.arguments + arguments =~= last.arguments);
        assert(calls.update(calls.len() - 1, last) =~= calls);
    }
}

/// A call that says nothing changes nothing, and the first that says anything is the first call.
pub proof fn law_calls_start_with_the_first(calls: Seq<CallView>, incoming: CallView)
    ensures
        incoming.id.len() == 0 && incoming.name.len() == 0 && incoming.arguments.len() == 0
            ==> merged(calls, incoming) == calls,
        incoming.id.len() > 0 || incoming.name.len() > 0 || incoming.arguments.len() > 0 ==> merged(
            Seq::empty(),
            incoming,
        ) == seq![incoming],
{
    assert(Seq::<CallView>::empty().push(incoming) =~= seq![incoming]);
}

/// `calls` with all of `incoming` merged into them, one after the other.
pub open spec fn merged_all(calls: Seq<CallView>, incoming: Seq<CallView>) -> Seq<CallView>
    decreases incoming.len(),
{
    if incoming.len() == 0 {
        calls
    } else {
        merged(merged_all(calls, incoming.drop_last()), incoming.last())
    }
}

/// Calls that are sent whole, each with an id of its own, come out as they were sent.
pub proof fn law_whole_calls_come_out_as_sent(calls: Seq<CallView>)
    requires
        forall|i: int| 0 <= i < calls.len() ==> (#[trigger] calls[i]).id.len() > 0,
        forall|i: int, j: int|
            0 <= i < j < calls.len() ==> (#[trigger] calls[i]).id != (#[trigger] calls[j]).id,
    ensures
        merged_all(Seq::empty(), calls) == calls,
    decreases calls.len(),
{
    if calls.len() > 0 {
        let earlier = calls.drop_last();
        assert forall|i: int| 0 <= i < earlier.len() implies (#[trigger] earlier[i]).id.len() > 0
            && earlier[i].id != calls.last().id by {
            assert(earlier[i] == calls[i]);
            assert(calls[calls.len() - 1] == calls.last());
        }
        law_whole_calls_come_out_as_sent(earlier);
        assert(calls[calls.len() - 1].id.len() > 0);
        law_new_ids_open_new_calls(earlier, calls.last());
        assert(earlier.push(calls.last()) =~= calls);
    } else {
        assert(calls =~= Seq::empty());
    }
}

/// A call in a chunk of the Chat Completions API is read with the id, the name and the arguments
/// that the chunk gives it; what the chunk does not give is empty.
pub proof fn law_completions_calls_are_read(
    chunk: crate::json::JsonView,
    choices: Seq<crate::json::JsonView>,
    delta: crate::json::JsonView,
    calls: Seq<crate::json::JsonView>,
    function: crate::json::JsonView,
    text: Seq<char>,
)
    requires
        choices.len() > 0,
        calls.len() > 0,
        crate::json::member_view(Some(chunk), "choices"@) == Some(
            crate::json::JsonView::Array(choices),
        ),
        crate::json::member_view(Some(choices[0]), "delta"@) == Some(delta),
        crate::json::member_view(Some(delta), "tool_calls"@) == Some(
            crate::json::JsonView::Array(calls),
        ),
        crate::json::member_view(Some(calls[0]), "function"@) == Some(function),
    ensures
        call_in(chunk, false) is Some,
        ({
            let call = call_in(chunk, false)->0;
            let said = crate::json::JsonView::Text(text);
            let id = crate::json::member_view(Some(calls[0]), "id"@);
            let name = crate::json::member_view(Some(function), "name"@);
            let arguments = crate::json::member_view(Some(function), "arguments"@);
            &&& id == Some(said) ==> call.id == text
            &&& id is None ==> call.id.len() == 0
            &&& name == Some(said) ==> call.name == text
            &&& name is None ==> call.name.len() == 0
            &&& arguments == Some(said) ==> call.arguments == text
            &&& arguments is None ==> call.arguments.len() == 0
        }),
{
}

/// A chunk of the Chat Completions API without tool calls in its first choice holds no call.
pub proof fn law_text_chunks_hold_no_call(
    chunk: crate::json::JsonView,
    choices: Seq<crate::json::JsonView>,
    delta: crate::json::JsonView,
)
    requires
        choices.len() > 0,
        crate::json::member_view(Some(chunk), "choices"@) == Some(
            crate::json::JsonView::Array(choices),
        ),
        crate::json::member_view(Some(choices[0]), "delta"@) == Some(delta),
        crate::json::member_view(Some(delta), "tool_calls"@) is None,
    ensures
        call_in(chunk, false) is None,
{
}

/// A chunk of the Responses API holds a call where it says that a call is complete, and then the
/// id, the name and the arguments that it gives; all three have to be there.
pub proof fn law_responses_calls_are_read(
    chunk: crate::json::JsonView,
    item: crate::json::JsonView,
    kind: Seq<char>,
    call: CallView,
)
    requires
        crate::json::member_view(Some(chunk), "type"@) == Some(crate::json::JsonView::Text(kind)),
    ensures
        kind == "response.function_call_arguments.done"@ && crate::json::member_view(
            Some(chunk),
            "call_id"@,
        ) == Some(crate::json::JsonView::Text(call.id)) && crate::json::member_view(
            Some(chunk),
            "name"@,
        ) == Some(crate::json::JsonView::Text(call.name)) && crate::json::member_view(
            Some(chunk),
            "arguments"@,
        ) == Some(crate::json::JsonView::Text(call.arguments)) ==> call_in(chunk, true) == Some(
            call,
        ),
        kind == "response.output_item.done"@ && crate::json::member_view(Some(chunk), "item"@)
            == Some(item) && crate::json::member_view(Some(item), "type"@) == Some(
            crate::json::JsonView::Text("function_call"@),
        ) && crate::json::member_view(Some(item), "call_id"@) == Some(
            crate::json::JsonView::Text(call.id),
        ) && crate::json::member_view(Some(item), "name"@) == Some(
            crate::json::JsonView::Text(call.name),
        ) && crate::json::member_view(Some(item), "arguments"@) == Some(
            crate::json::JsonView::Text(call.arguments),
        ) ==> call_in(chunk, true) == Some(call),
        kind == "response.output_item.done"@ && crate::json::member_view(Some(chunk), "item"@)
            == Some(item) && crate::json::member_view(Some(item), "type"@) != Some(
            crate::json::JsonView::Text("function_call"@),
        ) ==> call_in(chunk, true) is None,
        kind != "response.function_call_arguments.done"@ && kind != "response.output_item.done"@
            ==> call_in(chunk, true) is None,
{
    reveal_strlit("response.function_call_arguments.done");
    reveal_strlit("response.output_item.done");
    assert("response.function_call_arguments.done"@.len() != "response.output_item.done"@.len());
}

/// Each tool gets the arguments that are given for it: lists keep all their texts in their order,
/// and texts are taken as they are.
pub proof fn law_tools_get_their_arguments(
    args: crate::json::JsonView,
    list: Seq<crate::json::JsonView>,
    texts: Seq<Seq<char>>,
    text: Seq<char>,
    flag: bool,
)
    ensures
        crate::json::member_view(Some(args), "files"@) == Some(crate::json::JsonView::Array(list))
            && list.len() == texts.len() && (forall|i: int|
            0 <= i < list.len() ==> crate::json::member_view(Some(#[trigger] list[i]), "name"@)
                == Some(crate::json::JsonView::Text(texts[i]))) ==> tool_view("read_files"@, args)
            == Some(ToolView::ReadFiles { files: texts }),
        crate::json::member_view(Some(args), "queries"@) == Some(
            crate::json::JsonView::Array(crate::json::text_items(texts)),
        ) && crate::json::member_view(Some(args), "path"@) == Some(
            crate::json::JsonView::Text(text),
        ) ==> tool_view("grep"@, args) == Some(ToolView::Grep { queries: texts, path: text }),
        crate::json::member_view(Some(args), "patterns"@) == Some(
            crate::json::JsonView::Array(crate::json::text_items(texts)),
        ) && crate::json::member_view(Some(args), "path"@) == Some(
            crate::json::JsonView::Text(text),
        ) ==> tool_view("file_glob"@, args) == Some(
            ToolView::FileGlobV2 { patterns: texts, search_dir: text },
        ),
        crate::json::member_view(Some(args), "command"@) == Some(
            crate::json::JsonView::Text(text),
        ) && crate::json::member_view(Some(args), "is_read_only"@) == Some(
            crate::json::JsonView::Bool(flag),
        ) ==> tool_view("run_shell_command"@, args) == Some(
            ToolView::RunShellCommand { command: text, is_read_only: flag },
        ),
        crate::json::member_view(Some(args), "command"@) == Some(
            crate::json::JsonView::Text(text),
        ) && crate::json::member_view(Some(args), "is_read_only"@) is None ==> tool_view(
            "run_shell_command"@,
            args,
        ) == Some(ToolView::RunShellCommand { command: text, is_read_only: false }),
{
    lemma_tool_names_differ();
    crate::json::law_text_lists_are_read(
        texts,
        Seq::empty(),
        crate::json::JsonView::Null,
        Seq::empty(),
    );
    let pick = |item: crate::json::JsonView|
        crate::json::text_view(crate::json::member_view(Some(item), "name"@));
    if list.len() == texts.len() && (forall|i: int|
        0 <= i < list.len() ==> crate::json::member_view(Some(#[trigger] list[i]), "name"@) == Some(
            crate::json::JsonView::Text(texts[i]),
        )) {
        assert forall|i: int| 0 <= i < list.len() implies pick(#[trigger] list[i]) == Some(
            texts[i],
        ) by {
            assert(crate::json::member_view(Some(list[i]), "name"@) == Some(
                crate::json::JsonView::Text(texts[i]),
            ));
        }
        crate::lists::lemma_all_picked(list, pick);
        assert(list.filter_map(pick) =~= texts) by {
            assert forall|i: int| 0 <= i < list.len() implies list.filter_map(pick)[i]
                == texts[i] by {
                assert(Some(list.filter_map(pick)[i]) == pick(list[i]));
            }
        }
    }
}

proof fn lemma_tool_names_differ()
    ensures
        "read_files"@ != "grep"@,
        "read_files"@ != "file_glob"@,
        "read_files"@ != "run_shell_command"@,
        "grep"@ != "file_glob"@,
        "grep"@ != "run_shell_command"@,
        "file_glob"@ != "run_shell_command"@,
{
    reveal_strlit("read_files");
    reveal_strlit("grep");
    reveal_strlit("file_glob");
    reveal_strlit("run_shell_command");
    assert("read_files"@.len() == 10 && "grep"@.len() == 4 && "file_glob"@.len() == 9);
    assert("run_shell_command"@.len() == 17);
}

/// A call without the arguments that its tool requires, or of an unknown tool, is none.
pub proof fn law_incomplete_calls_are_none(name: Seq<char>, args: crate::json::JsonView)
    ensures
        name != "read_files"@ && name != "grep"@ && name != "file_glob"@ && name
            != "run_shell_command"@ ==> tool_view(name, args) is None,
        crate::json::member_view(Some(args), "files"@) is None ==> tool_view("read_files"@, args)
            is None,
        crate::json::member_view(Some(args), "queries"@) is None || crate::json::member_view(
            Some(args),
            "path"@,
        ) is None ==> tool_view("grep"@, args) is None,
        crate::json::member_view(Some(args), "patterns"@) is None || crate::json::member_view(
            Some(args),
            "path"@,
        ) is None ==> tool_view("file_glob"@, args) is None,
        crate::json::member_view(Some(args), "command"@) is None ==> tool_view(
            "run_shell_command"@,
            args,
        ) is None,
{
    lemma_tool_names_differ();
}

} // verus!
