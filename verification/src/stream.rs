//! The stream of server-sent events in which a direct provider answers.
use crate::events::{build_add_message_event, ResponseEvent};
use crate::json::{parse_json, text_member, Json};
use crate::text::{join, same_text, split, split_once, strip_prefix, trim};
use crate::tools::{extract_tool_call, merge_tool_call, read_first_delta, ProviderToolCall};
use crate::unicode::text_of_bytes;
use vstd::prelude::*;

verus! {

/// The first block of `buffer`, up to an empty line, and what stands behind that line: nothing
/// while no block is complete. Only a buffer without a `\n` `\n` is split at `\r\n` `\r\n`.
pub open spec fn first_block(buffer: Seq<char>) -> Option<(Seq<char>, Seq<char>)> {
    match crate::text::position_of(buffer, "\n\n"@) {
        Some(at) => Some((buffer.take(at), buffer.skip(at + 2))),
        None => match crate::text::position_of(buffer, "\r\n\r\n"@) {
            Some(at) => Some((buffer.take(at), buffer.skip(at + 4))),
            None => None,
        },
    }
}

/// What a line says behind `data:`.
pub open spec fn line_data(line: Seq<char>) -> Option<Seq<char>> {
    let trimmed = crate::text::trimmed(line);
    if "data:"@.is_prefix_of(trimmed) {
        Some(crate::text::trimmed(trimmed.skip(5)))
    } else {
        None
    }
}

/// The data of a block: that of its lines, one below the other.
pub open spec fn block_data(block: Seq<char>) -> Seq<char> {
    crate::text::joined(
        crate::text::pieces(block, '\n').filter_map(|line: Seq<char>| line_data(line)),
        "\n"@,
    )
}

/// The data of the first block that has any, and what stands behind that block; without such a
/// block, the incomplete block at the end.
pub open spec fn next_data(buffer: Seq<char>) -> (Option<Seq<char>>, Seq<char>)
    decreases buffer.len(),
    via next_data_decreases
{
    match first_block(buffer) {
        Some((block, rest)) => if block_data(block).len() > 0 {
            (Some(block_data(block)), rest)
        } else {
            next_data(rest)
        },
        None => (None, buffer),
    }
}

#[via_fn]
proof fn next_data_decreases(buffer: Seq<char>) {
    lemma_first_block(buffer);
}

/// Taking a block off leaves less.
pub proof fn lemma_first_block(buffer: Seq<char>)
    ensures
        first_block(buffer) matches Some((block, rest)) ==> block.len() + 2 <= buffer.len()
            && rest.len() < buffer.len(),
{
    reveal_strlit("\n\n");
    reveal_strlit("\r\n\r\n");
    crate::text::lemma_position_of(buffer, "\n\n"@);
    crate::text::lemma_position_of(buffer, "\r\n\r\n"@);
}

/// Reading data leaves less in the buffer.
proof fn lemma_next_data(buffer: Seq<char>)
    ensures
        next_data(buffer).0 is Some ==> next_data(buffer).1.len() < buffer.len(),
        next_data(buffer).0 matches Some(data) ==> data.len() > 0,
    decreases buffer.len(),
{
    lemma_first_block(buffer);
    match first_block(buffer) {
        Some((block, rest)) => {
            lemma_next_data(rest);
        },
        None => {},
    }
}

fn split_first_block(buffer: &str) -> (res: Option<(&str, &str)>)
    ensures
        (match res {
            Some((block, rest)) => Some((block@, rest@)),
            None => None,
        }) == first_block(buffer@),
{
    proof {
        reveal_strlit("\n\n");
        reveal_strlit("\r\n\r\n");
    }
    match split_once(buffer, "\n\n") {
        Some(parts) => Some(parts),
        None => split_once(buffer, "\r\n\r\n"),
    }
}

fn read_line_data(line: &str) -> (res: Option<&str>)
    ensures
        crate::json::seen_text(res) == line_data(line@),
{
    proof {
        reveal_strlit("data:");
    }
    match strip_prefix(trim(line), "data:") {
        Some(data) => Some(trim(data)),
        None => None,
    }
}

fn read_block_data(block: &str) -> (res: String)
    ensures
        res@ == block_data(block@),
{
    let lines = split(block, '\n');
    let ghost all = crate::text::pieces(block@, '\n');
    let ghost pick = |line: Seq<char>| line_data(line);
    let mut data: Vec<String> = Vec::new();
    let n: usize = lines.len();
    let mut i: usize = 0;
    assert(all.len() == lines@.len());
    assert(crate::text::texts(data@) =~= all.take(0).filter_map(pick));
    while i < n
        invariant
            i <= n == lines@.len(),
            all == crate::text::slice_texts(lines@),
            pick == (|line: Seq<char>| line_data(line)),
            crate::text::texts(data@) == all.take(i as int).filter_map(pick),
        decreases n - i,
    {
        proof {
            all.lemma_filter_map_take_succ(pick, i as int);
        }
        match read_line_data(lines[i]) {
            Some(said) => {
                data.push(said.to_owned());
            },
            None => {},
        }
        assert(crate::text::texts(data@) =~= all.take(i + 1).filter_map(pick));
        i += 1;
    }
    assert(all.take(n as int) =~= all);
    join(&data, "\n")
}

/// Takes the next data out of the buffer, with all that stands before it; blocks without data are
/// dropped.
pub fn extract_sse_data(buffer: &mut String) -> (res: Option<String>)
    ensures
        crate::text::opt_text(res) == next_data(old(buffer)@).0,
        final(buffer)@ == next_data(old(buffer)@).1,
{
    loop
        invariant
            next_data(buffer@) == next_data(old(buffer)@),
        decreases buffer@.len(),
    {
        proof {
            lemma_first_block(buffer@);
        }
        let (data, rest) = match split_first_block(buffer.as_str()) {
            Some((block, rest)) => (read_block_data(block), rest.to_owned()),
            None => {
                return None;
            },
        };
        *buffer = rest;
        if !data.as_str().is_empty() {
            return Some(data);
        }
    }
}

/// The state of an answer that streams in.
pub ghost struct StreamView {
    /// Whether the provider speaks the Responses API rather than the Chat Completions API.
    pub responses_api: bool,
    /// What has come in and has not been read yet.
    pub buffer: Seq<char>,
    /// The text of the answer so far.
    pub output_text: Seq<char>,
    /// The tool calls of the answer so far.
    pub tool_calls: Seq<crate::tools::CallView>,
    /// The answer is complete.
    pub completed: bool,
}

/// The chunk says that the answer ends, whether well or not.
pub open spec fn ends_response(chunk: crate::json::JsonView) -> bool {
    let kind = crate::json::text_view(crate::json::member_view(Some(chunk), "type"@));
    ||| kind == Some("response.completed"@)
    ||| kind == Some("response.incomplete"@)
    ||| kind == Some("response.failed"@)
}

/// The text that a chunk adds to the answer.
pub open spec fn chunk_text(chunk: crate::json::JsonView, responses_api: bool) -> Seq<char> {
    let content = if responses_api {
        crate::json::member_view(Some(chunk), "delta"@)
    } else {
        crate::json::member_view(crate::tools::first_delta(chunk), "content"@)
    };
    match crate::json::text_view(content) {
        Some(text) => text,
        None => Seq::empty(),
    }
}

impl StreamView {
    /// The state after more text has come in.
    pub open spec fn received(self, text: Seq<char>) -> StreamView {
        StreamView { buffer: self.buffer + text, ..self }
    }

    /// The state after a chunk was read.
    pub open spec fn after_chunk(self, chunk: crate::json::JsonView) -> StreamView {
        if self.responses_api && ends_response(chunk) {
            StreamView { completed: true, ..self }
        } else {
            StreamView {
                output_text: self.output_text + chunk_text(chunk, self.responses_api),
                tool_calls: match crate::tools::call_in(chunk, self.responses_api) {
                    Some(call) => crate::tools::merged(self.tool_calls, call),
                    None => self.tool_calls,
                },
                ..self
            }
        }
    }

    /// The state after data was read that says `parsed` as a JSON document; data that is none is
    /// passed over.
    pub open spec fn after_data(
        self,
        data: Seq<char>,
        parsed: Option<crate::json::JsonView>,
    ) -> StreamView {
        if data == "[DONE]"@ {
            StreamView { completed: true, ..self }
        } else {
            match parsed {
                Some(chunk) => self.after_chunk(chunk),
                None => self,
            }
        }
    }

    /// The state after a block was read.
    pub open spec fn after_block(self, block: Seq<char>) -> StreamView {
        let data = block_data(block);
        if data.len() > 0 {
            self.after_data(data, crate::json::parsed_json(data))
        } else {
            self
        }
    }

    /// The state after everything was read that the buffer holds, up to the end of the answer.
    pub open spec fn digested(self) -> StreamView
        decreases self.buffer.len(),
    {
        match first_block(self.buffer) {
            Some((block, rest)) => {
                proof {
                    lemma_first_block(self.buffer);
                }
                let after = StreamView { buffer: rest, ..self }.after_block(block);
                if after.completed {
                    after
                } else {
                    after.digested()
                }
            },
            None => self,
        }
    }
}

/// Reading block by block comes to the same as reading data by data.
proof fn lemma_digested_by_data(stream: StreamView)
    requires
        !stream.completed,
    ensures
        stream.digested() == match next_data(stream.buffer) {
            (Some(data), rest) => {
                let after = StreamView { buffer: rest, ..stream }.after_data(
                    data,
                    crate::json::parsed_json(data),
                );
                if after.completed {
                    after
                } else {
                    after.digested()
                }
            },
            (None, rest) => StreamView { buffer: rest, ..stream },
        },
    decreases stream.buffer.len(),
{
    lemma_first_block(stream.buffer);
    match first_block(stream.buffer) {
        Some((block, rest)) => {
            if block_data(block).len() == 0 {
                lemma_digested_by_data(StreamView { buffer: rest, ..stream });
            }
        },
        None => {},
    }
}

/// An answer that streams in, and the task that it is added to.
pub struct ProviderStream {
    pub task_id: String,
    pub message_id: String,
    pub responses_api: bool,
    pub buffer: String,
    pub output_text: String,
    pub tool_calls: Vec<ProviderToolCall>,
    pub completed: bool,
}

impl View for ProviderStream {
    type V = StreamView;

    open spec fn view(&self) -> StreamView {
        StreamView {
            responses_api: self.responses_api,
            buffer: self.buffer@,
            output_text: self.output_text@,
            tool_calls: crate::tools::call_views(self.tool_calls@),
            completed: self.completed,
        }
    }
}

/// What comes next in a stream.
#[derive(Debug, PartialEq, Eq)]
pub enum StreamStep {
    /// The answer is complete: this event is to be sent.
    Message(ResponseEvent),
    /// More bytes have to come in.
    NeedBytes,
    /// Nothing more comes.
    Ended,
}

impl ProviderStream {
    /// A stream of which nothing has come in yet.
    pub fn new(responses_api: bool, task_id: String, message_id: String) -> (res: Self)
        ensures
            res.task_id == task_id,
            res.message_id == message_id,
            res@ == (StreamView {
                responses_api,
                buffer: Seq::empty(),
                output_text: Seq::empty(),
                tool_calls: Seq::empty(),
                completed: false,
            }),
    {
        let stream = ProviderStream {
            task_id,
            message_id,
            responses_api,
            buffer: String::new(),
            output_text: String::new(),
            tool_calls: Vec::new(),
            completed: false,
        };
        assert(stream@.tool_calls =~= Seq::empty());
        stream
    }

    /// The event adds the answer as it stands to the task.
    pub open spec fn answered_by(self, event: ResponseEvent) -> bool {
        crate::events::adds_answer(
            event,
            self.task_id@,
            self.message_id@,
            self@.output_text,
            self@.tool_calls,
        )
    }

    /// The two streams answer for the same task and message.
    pub open spec fn same_target(self, other: ProviderStream) -> bool {
        self.task_id == other.task_id && self.message_id == other.message_id
    }

    fn read_chunk(&mut self, chunk: &Json)
        ensures
            final(self).same_target(*old(self)),
            final(self)@ == old(self)@.after_chunk(chunk@),
    {
        if self.responses_api {
            let ended = match text_member(Some(chunk), "type") {
                Some(kind) => same_text(kind, "response.completed") || same_text(
                    kind,
                    "response.incomplete",
                ) || same_text(kind, "response.failed"),
                None => false,
            };
            if ended {
                self.completed = true;
                return;
            }
        }
        let content = if self.responses_api {
            text_member(Some(chunk), "delta")
        } else {
            text_member(read_first_delta(chunk), "content")
        };
        match extract_tool_call(chunk, self.responses_api) {
            Some(call) => {
                merge_tool_call(&mut self.tool_calls, call);
            },
            None => {},
        }
        match content {
            Some(text) => {
                self.output_text.append(text);
            },
            None => {},
        }
        assert(self@.output_text =~= old(self)@.output_text + chunk_text(
            chunk@,
            old(self)@.responses_api,
        ));
    }

    /// Reads the data of a block, which says `parsed` as a JSON document.
    pub fn read_data(&mut self, data: &str, parsed: Option<&Json>)
        ensures
            final(self).same_target(*old(self)),
            final(self)@ == old(self)@.after_data(data@, crate::json::seen(parsed)),
    {
        if same_text(data, "[DONE]") {
            self.completed = true;
            return;
        }
        match parsed {
            Some(chunk) => {
                self.read_chunk(chunk);
            },
            None => {},
        }
    }

    /// Takes in the bytes that have come.
    pub fn push_bytes(&mut self, bytes: &[u8])
        ensures
            final(self).same_target(*old(self)),
            final(self)@ == old(self)@.received(crate::unicode::decoded(bytes@)),
    {
        let text = text_of_bytes(bytes);
        self.push_text(text.as_str());
    }

    /// Takes in the text that has come.
    pub fn push_text(&mut self, text: &str)
        ensures
            final(self).same_target(*old(self)),
            final(self)@ == old(self)@.received(text@),
    {
        self.buffer.append(text);
    }

    /// Reads what has come in. Once the answer is complete, its event is handed out, and nothing
    /// after that.
    pub fn advance(&mut self) -> (res: StreamStep)
        ensures
            final(self).same_target(*old(self)),
            old(self)@.completed ==> final(self)@ == old(self)@ && res is Ended,
            !old(self)@.completed ==> final(self)@ == old(self)@.digested() && match res {
                StreamStep::Message(event) => final(self)@.completed && final(self).answered_by(
                    event,
                ),
                StreamStep::NeedBytes => !final(self)@.completed,
                StreamStep::Ended => false,
            },
    {
        if self.completed {
            return StreamStep::Ended;
        }
        let ghost start = self@;
        loop
            invariant
                self.same_target(*old(self)),
                old(self)@ == start,
                !start.completed,
                !self@.completed,
                self@.digested() == start.digested(),
            decreases self@.buffer.len(),
        {
            proof {
                lemma_next_data(self@.buffer);
                lemma_digested_by_data(self@);
            }
            let data = match extract_sse_data(&mut self.buffer) {
                Some(data) => data,
                None => {
                    return StreamStep::NeedBytes;
                },
            };
            let parsed = parse_json(data.as_str());
            self.read_data(data.as_str(), parsed.as_ref());
            if self.completed {
                let event = build_add_message_event(
                    self.task_id.as_str(),
                    self.message_id.as_str(),
                    self.output_text.as_str(),
                    &self.tool_calls,
                );
                return StreamStep::Message(event);
            }
        }
    }

    /// Takes note that no more bytes will come: the answer is complete as it stands.
    pub fn end_of_input(&mut self) -> (res: StreamStep)
        ensures
            final(self).same_target(*old(self)),
            final(self)@ == (StreamView { completed: true, ..old(self)@ }),
            match res {
                StreamStep::Message(event) => !old(self)@.completed && final(self).answered_by(
                    event,
                ),
                StreamStep::NeedBytes => false,
                StreamStep::Ended => old(self)@.completed,
            },
    {
        if self.completed {
            return StreamStep::Ended;
        }
        self.completed = true;
        let event = build_add_message_event(
            self.task_id.as_str(),
            self.message_id.as_str(),
            self.output_text.as_str(),
            &self.tool_calls,
        );
        StreamStep::Message(event)
    }
}

/// A `\r\n` `\r\n` stands before a `\n` `\n`.
pub open spec fn mixes_line_ends(text: Seq<char>) -> bool {
    exists|i: int, j: int|
        i < j && #[trigger] crate::text::stands_at(text, "\r\n\r\n"@, i)
            && #[trigger] crate::text::stands_at(text, "\n\n"@, j)
}

/// What stands at a place in a text stands there in a longer one.
proof fn lemma_stands_in_longer(text: Seq<char>, more: Seq<char>, part: Seq<char>, at: int)
    requires
        at + part.len() <= text.len(),
    ensures
        crate::text::stands_at(text + more, part, at) == crate::text::stands_at(text, part, at),
{
    if 0 <= at {
        assert((text + more).subrange(at, at + part.len()) =~= text.subrange(at, at + part.len()));
    }
}

/// What stands in the rest of a text stands in the text.
proof fn lemma_rest_mixes_line_ends(text: Seq<char>, from: int)
    requires
        0 <= from <= text.len(),
        mixes_line_ends(text.skip(from)),
    ensures
        mixes_line_ends(text),
{
    let rest = text.skip(from);
    let (i, j) = choose|i: int, j: int|
        i < j && #[trigger] crate::text::stands_at(rest, "\r\n\r\n"@, i)
            && #[trigger] crate::text::stands_at(rest, "\n\n"@, j);
    let crlf = "\r\n\r\n"@;
    let lf = "\n\n"@;
    assert(text.subrange(from + i, from + i + crlf.len()) =~= rest.subrange(i, i + crlf.len()));
    assert(text.subrange(from + j, from + j + lf.len()) =~= rest.subrange(j, j + lf.len()));
    assert(crate::text::stands_at(text, crlf, from + i));
    assert(crate::text::stands_at(text, lf, from + j));
}

/// A block that is complete stays the first one when more comes in.
proof fn lemma_first_block_stays(buffer: Seq<char>, more: Seq<char>)
    requires
        first_block(buffer) is Some,
        !mixes_line_ends(buffer + more),
    ensures
        first_block(buffer) matches Some((block, rest)) ==> first_block(buffer + more) == Some(
            (block, rest + more),
        ) && !mixes_line_ends(rest + more),
{
    let crlf = "\r\n\r\n"@;
    let lf = "\n\n"@;
    let whole = buffer + more;
    reveal_strlit("\n\n");
    reveal_strlit("\r\n\r\n");
    crate::text::lemma_position_of(buffer, lf);
    crate::text::lemma_position_of(buffer, crlf);
    let (block, rest) = first_block(buffer)->0;
    match crate::text::position_of(buffer, lf) {
        Some(at) => {
            assert forall|i: int| 0 <= i < at implies !crate::text::stands_at(whole, lf, i) by {
                lemma_stands_in_longer(buffer, more, lf, i);
            }
            lemma_stands_in_longer(buffer, more, lf, at);
            crate::text::lemma_position_of_unique(whole, lf, at);
            assert(whole.take(at) =~= block);
            assert(whole.skip(at + 2) =~= rest + more);
            if mixes_line_ends(rest + more) {
                lemma_rest_mixes_line_ends(whole, at + 2);
            }
        },
        None => {
            let at = crate::text::position_of(buffer, crlf)->0;
            lemma_stands_in_longer(buffer, more, crlf, at);
            assert forall|j: int| !crate::text::stands_at(whole, lf, j) by {
                if crate::text::stands_at(whole, lf, j) {
                    if j + 2 <= buffer.len() {
                        lemma_stands_in_longer(buffer, more, lf, j);
                    } else {
                        assert(at < j);
                    }
                }
            }
            crate::text::lemma_position_of(whole, lf);
            assert forall|i: int| 0 <= i < at implies !crate::text::stands_at(whole, crlf, i) by {
                lemma_stands_in_longer(buffer, more, crlf, i);
            }
            crate::text::lemma_position_of_unique(whole, crlf, at);
            assert(whole.take(at) =~= block);
            assert(whole.skip(at + 4) =~= rest + more);
            if mixes_line_ends(rest + more) {
                lemma_rest_mixes_line_ends(whole, at + 4);
            }
        },
    }
}

/// Reading what has come in before more comes makes no difference.
proof fn lemma_digesting_early(stream: StreamView, more: Seq<char>)
    requires
        !stream.completed,
        !mixes_line_ends(stream.buffer + more),
    ensures
        stream.received(more).digested() == if stream.digested().completed {
            stream.digested().received(more)
        } else {
            stream.digested().received(more).digested()
        },
    decreases stream.buffer.len(),
{
    lemma_first_block(stream.buffer);
    match first_block(stream.buffer) {
        Some((block, rest)) => {
            lemma_first_block_stays(stream.buffer, more);
            let after = StreamView { buffer: rest, ..stream }.after_block(block);
            assert((StreamView { buffer: rest + more, ..stream }).after_block(block)
                == after.received(more));
            if !after.completed {
                lemma_digesting_early(after, more);
            }
        },
        None => {},
    }
}

/// How the text of an answer is cut into pieces on its way does not matter: reading after each
/// piece leads to the same state as reading once at the end. It takes a text in which no
/// `\r\n` `\r\n` stands before a `\n` `\n`.
pub proof fn law_pieces_do_not_matter(stream: StreamView, first: Seq<char>, second: Seq<char>)
    requires
        !stream.completed,
        !mixes_line_ends(stream.buffer + first + second),
    ensures
        stream.received(first + second).digested() == if stream.received(
            first,
        ).digested().completed {
            stream.received(first).digested().received(second)
        } else {
            stream.received(first).digested().received(second).digested()
        },
{
    lemma_digesting_early(stream.received(first), second);
    assert(stream.received(first).received(second).buffer =~= stream.received(
        first + second,
    ).buffer);
}

/// How the bytes of an answer are cut into pieces does not matter either. It takes ASCII bytes:
/// of others a cut may go through the middle of a character.
pub proof fn law_byte_pieces_do_not_matter(stream: StreamView, first: Seq<u8>, second: Seq<u8>)
    requires
        !stream.completed,
        crate::unicode::ascii_bytes(first),
        crate::unicode::ascii_bytes(second),
        !mixes_line_ends(stream.buffer + crate::unicode::decoded(first + second)),
    ensures
        crate::unicode::decoded(first + second) == crate::unicode::decoded(first)
            + crate::unicode::decoded(second),
        stream.received(crate::unicode::decoded(first + second)).digested() == {
            let between = stream.received(crate::unicode::decoded(first)).digested();
            let after = between.received(crate::unicode::decoded(second));
            if between.completed {
                after
            } else {
                after.digested()
            }
        },
{
    let one = crate::unicode::decoded(first);
    let two = crate::unicode::decoded(second);
    assert(crate::unicode::ascii_bytes(first + second)) by {
        assert forall|i: int| 0 <= i < (first + second).len() implies #[trigger] (first + second)[i]
            < 0x80 by {
            if i < first.len() {
                assert(first[i] < 0x80);
            } else {
                assert(second[i - first.len()] < 0x80);
            }
        }
    }
    assert(crate::unicode::decoded(first + second) =~= one + two);
    assert(stream.buffer + (one + two) =~= stream.buffer + one + two);
    law_pieces_do_not_matter(stream, one, two);
}

/// Reading only adds to an answer: its text grows at the end and no tool call is lost, and as long
/// as the answer is not complete nothing of it stays unread but an incomplete block.
pub proof fn law_reading_only_adds(stream: StreamView)
    requires
        !stream.completed,
    ensures
        stream.output_text.is_prefix_of(stream.digested().output_text),
        stream.tool_calls.len() <= stream.digested().tool_calls.len(),
        stream.digested().responses_api == stream.responses_api,
        !stream.digested().completed ==> first_block(stream.digested().buffer) is None,
    decreases stream.buffer.len(),
{
    lemma_first_block(stream.buffer);
    match first_block(stream.buffer) {
        Some((block, rest)) => {
            let after = StreamView { buffer: rest, ..stream }.after_block(block);
            let data = block_data(block);
            match crate::json::parsed_json(data) {
                Some(chunk) => match crate::tools::call_in(chunk, stream.responses_api) {
                    Some(call) => {
                        crate::tools::law_merging_loses_nothing(stream.tool_calls, call);
                    },
                    None => {},
                },
                None => {},
            }
            assert(after.output_text.take(stream.output_text.len() as int) =~= stream.output_text);
            if !after.completed {
                law_reading_only_adds(after);
                let end = after.digested().output_text;
                assert(end.take(stream.output_text.len() as int) =~= end.take(
                    after.output_text.len() as int,
                ).take(stream.output_text.len() as int));
            }
        },
        None => {},
    }
}

/// Data that is written as an event is read as it was: on its own line, and with nothing between
/// it and what stands behind.
pub proof fn law_framed_data_is_read(data: Seq<char>, rest: Seq<char>)
    requires
        data.len() > 0,
        crate::text::trimmed(data) == data,
        forall|i: int| 0 <= i < data.len() ==> #[trigger] data[i] != '\n',
    ensures
        next_data("data: "@ + data + "\n\n"@ + rest) == (Some(data), rest),
{
    reveal_strlit("data: ");
    reveal_strlit("data:");
    reveal_strlit("\n\n");
    let block = "data: "@ + data;
    let buffer = "data: "@ + data + "\n\n"@ + rest;
    let at = block.len() as int;
    assert(forall|i: int| 0 <= i < block.len() ==> #[trigger] block[i] != '\n');
    assert forall|i: int| 0 <= i < at implies !crate::text::stands_at(buffer, "\n\n"@, i) by {
        if crate::text::stands_at(buffer, "\n\n"@, i) {
            assert(buffer.subrange(i, i + 2)[0] == '\n');
            assert(buffer[i] == block[i]);
        }
    }
    assert(buffer.subrange(at, at + 2) =~= "\n\n"@);
    crate::text::lemma_position_of_unique(buffer, "\n\n"@, at);
    assert(buffer.take(at) =~= block);
    assert(buffer.skip(at + 2) =~= rest);
    // The block is a single line.
    crate::text::lemma_first_of_unique(block, '\n', at);
    assert(crate::text::pieces(block, '\n') == seq![block]);
    crate::text::law_trimmed_stays(data);
    assert(block.last() == data.last());
    assert(!crate::text::whitespace(block[0]));
    crate::text::lemma_trimmed_whole(block);
    assert(block.take(5) =~= "data:"@);
    let said = block.skip(5);
    assert(said.drop_first() =~= data);
    assert(crate::text::trimmed_start(data) == data);
    assert(crate::text::trimmed_start(said) == data) by {
        assert(crate::text::whitespace(said[0]));
    }
    assert(line_data(block) == Some(data));
    let pick = |line: Seq<char>| line_data(line);
    Seq::<Seq<char>>::lemma_filter_map_singleton(block, pick);
    assert(block_data(block) == data);
}

/// `chunk` is one that adds `text` to an answer: in the Responses API as its `delta`, in the Chat
/// Completions API as the `content` of the `delta` of its first choice.
pub open spec fn says_text(
    chunk: crate::json::JsonView,
    responses_api: bool,
    text: Seq<char>,
) -> bool {
    let said = Some(crate::json::JsonView::Text(text));
    if responses_api {
        &&& crate::json::member_view(Some(chunk), "delta"@) == said
        &&& crate::json::member_view(Some(chunk), "type"@) matches Some(kind) ==> {
            &&& kind != crate::json::JsonView::Text("response.completed"@)
            &&& kind != crate::json::JsonView::Text("response.incomplete"@)
            &&& kind != crate::json::JsonView::Text("response.failed"@)
        }
    } else {
        match crate::json::member_view(Some(chunk), "choices"@) {
            Some(crate::json::JsonView::Array(choices)) => choices.len() > 0
                && crate::json::member_view(
                crate::json::member_view(Some(choices[0]), "delta"@),
                "content"@,
            ) == said,
            _ => false,
        }
    }
}

/// The text of a chunk goes behind the text so far, character by character: nothing is taken off,
/// put in or changed, whatever the text is.
pub proof fn law_deltas_are_taken_as_they_come(
    stream: StreamView,
    chunk: crate::json::JsonView,
    text: Seq<char>,
)
    requires
        says_text(chunk, stream.responses_api, text),
    ensures
        stream.after_chunk(chunk).output_text == stream.output_text + text,
        stream.after_chunk(chunk).completed == stream.completed,
        stream.after_chunk(chunk).buffer == stream.buffer,
        stream.after_chunk(chunk).responses_api == stream.responses_api,
{
}

/// A chunk without text leaves the text as it is.
pub proof fn law_other_chunks_add_no_text(stream: StreamView, chunk: crate::json::JsonView)
    requires
        forall|text: Seq<char>| !(#[trigger] says_text(chunk, stream.responses_api, text)),
        stream.responses_api || (crate::json::member_view(Some(chunk), "choices"@) is None
            || crate::json::member_view(Some(chunk), "choices"@)->0 is Array),
    ensures
        stream.after_chunk(chunk).output_text == stream.output_text,
{
    reveal_strlit("0");
    let content = if stream.responses_api {
        crate::json::member_view(Some(chunk), "delta"@)
    } else {
        crate::json::member_view(crate::tools::first_delta(chunk), "content"@)
    };
    match content {
        Some(crate::json::JsonView::Text(text)) => {
            assert(!says_text(chunk, stream.responses_api, text));
        },
        _ => {},
    }
    assert(stream.output_text + Seq::<char>::empty() =~= stream.output_text);
}

/// The call in a chunk is merged into the calls so far; without one they stay as they are.
pub proof fn law_calls_are_merged_as_they_come(
    stream: StreamView,
    chunk: crate::json::JsonView,
    call: crate::tools::CallView,
)
    requires
        !stream.responses_api || !ends_response(chunk),
    ensures
        crate::tools::call_in(chunk, stream.responses_api) == Some(call) ==> stream.after_chunk(
            chunk,
        ).tool_calls == crate::tools::merged(stream.tool_calls, call),
        crate::tools::call_in(chunk, stream.responses_api) is None ==> stream.after_chunk(
            chunk,
        ).tool_calls == stream.tool_calls,
{
}

/// An answer of the Responses API ends with the event that says so, however it went, and with no
/// other chunk; one of the Chat Completions API ends with no chunk at all. What ends an answer adds
/// nothing to it.
pub proof fn law_answers_end_where_they_say(
    stream: StreamView,
    chunk: crate::json::JsonView,
    kind: Seq<char>,
)
    requires
        !stream.completed,
        crate::json::member_view(Some(chunk), "type"@) == Some(crate::json::JsonView::Text(kind)),
    ensures
        stream.after_chunk(chunk).completed <==> stream.responses_api && (kind
            == "response.completed"@ || kind == "response.incomplete"@ || kind
            == "response.failed"@),
        stream.after_chunk(chunk).completed ==> stream.after_chunk(chunk).output_text
            == stream.output_text && stream.after_chunk(chunk).tool_calls == stream.tool_calls,
{
}

/// The data `[DONE]` ends an answer and adds nothing to it, whatever it says as a document; data
/// that is no document is passed over.
pub proof fn law_done_ends_the_answer(
    stream: StreamView,
    data: Seq<char>,
    parsed: Option<crate::json::JsonView>,
)
    ensures
        stream.after_data("[DONE]"@, parsed) == (StreamView { completed: true, ..stream }),
        data != "[DONE]"@ ==> stream.after_data(data, None) == stream,
        data != "[DONE]"@ && parsed is Some ==> stream.after_data(data, parsed)
            == stream.after_chunk(parsed->0),
{
}

/// `datas` as a server sends them, each as an event of its own.
pub open spec fn framed(datas: Seq<Seq<char>>) -> Seq<char>
    decreases datas.len(),
{
    if datas.len() == 0 {
        Seq::empty()
    } else {
        "data: "@ + datas[0] + "\n\n"@ + framed(datas.drop_first())
    }
}

/// `data` can be sent on one line.
pub open spec fn one_line(data: Seq<char>) -> bool {
    &&& data.len() > 0
    &&& crate::text::trimmed(data) == data
    &&& forall|i: int| 0 <= i < data.len() ==> #[trigger] data[i] != '\n'
}

/// The text of an answer is the text of its chunks in a row: of events that say `texts`, each of
/// them is found in the answer in its place, with nothing before, between or behind them.
pub proof fn law_streamed_text_is_complete(
    stream: StreamView,
    datas: Seq<Seq<char>>,
    texts: Seq<Seq<char>>,
)
    requires
        !stream.completed,
        stream.buffer.len() == 0,
        datas.len() == texts.len(),
        forall|i: int|
            0 <= i < datas.len() ==> one_line(#[trigger] datas[i]) && datas[i] != "[DONE]"@ && (
            crate::json::parsed_json(datas[i]) matches Some(chunk) && says_text(
                chunk,
                stream.responses_api,
                texts[i],
            )),
    ensures
        ({
            let after = stream.received(framed(datas)).digested();
            &&& after.output_text == stream.output_text + texts.flatten()
            &&& !after.completed
            &&& after.buffer.len() == 0
        }),
    decreases datas.len(),
{
    let start = stream.received(framed(datas));
    lemma_digested_by_data(start);
    if datas.len() == 0 {
        assert(start.buffer =~= Seq::<char>::empty());
        lemma_first_block(start.buffer);
        assert(stream.output_text + texts.flatten() =~= stream.output_text);
    } else {
        let rest = datas.drop_first();
        assert(one_line(datas[0]));
        law_framed_data_is_read(datas[0], framed(rest));
        assert(start.buffer =~= framed(datas));
        let chunk = crate::json::parsed_json(datas[0])->0;
        let next = StreamView { buffer: Seq::empty(), ..stream.after_chunk(chunk) };
        let others = texts.drop_first();
        assert forall|i: int| 0 <= i < rest.len() implies one_line(#[trigger] rest[i]) && rest[i]
            != "[DONE]"@ && (crate::json::parsed_json(rest[i]) matches Some(chunk) && says_text(
            chunk,
            next.responses_api,
            others[i],
        )) by {
            assert(rest[i] == datas[i + 1] && others[i] == texts[i + 1]);
        }
        law_streamed_text_is_complete(next, rest, others);
        let after = StreamView { buffer: framed(rest), ..stream }.after_data(
            datas[0],
            crate::json::parsed_json(datas[0]),
        );
        assert(Seq::<char>::empty() + framed(rest) =~= framed(rest));
        assert(after == next.received(framed(rest)));
        assert(texts.flatten() == texts[0] + others.flatten());
        assert(stream.output_text + texts[0] + others.flatten() =~= stream.output_text + (texts[0]
            + others.flatten()));
    }
}

/// An answer that is ended by `[DONE]` is complete with the text and the calls that it has, and
/// what stands behind is not read.
pub proof fn law_nothing_is_read_behind_the_end(stream: StreamView, rest: Seq<char>)
    requires
        !stream.completed,
        stream.buffer == "data: [DONE]\n\n"@ + rest,
    ensures
        stream.digested() == (StreamView { completed: true, buffer: rest, ..stream }),
{
    let done = "[DONE]"@;
    reveal_strlit("data: [DONE]\n\n");
    reveal_strlit("data: ");
    reveal_strlit("\n\n");
    reveal_strlit("[DONE]");
    assert("data: [DONE]\n\n"@ =~= "data: "@ + done + "\n\n"@);
    crate::text::lemma_trimmed_whole(done);
    law_framed_data_is_read(done, rest);
    lemma_digested_by_data(stream);
}

/// Of the lines of an event those that say data are taken together, one below the other, and the
/// others are passed over.
pub proof fn law_event_lines_are_sorted_out(
    first: Seq<char>,
    second: Seq<char>,
    rest: Seq<char>,
)
    requires
        first.len() > 0,
        second.len() > 0,
        forall|i: int| 0 <= i < first.len() ==> #[trigger] first[i] != '\n',
        forall|i: int| 0 <= i < second.len() ==> #[trigger] second[i] != '\n',
    ensures
        ({
            let event = first + "\n"@ + second + "\n\n"@ + rest;
            match (line_data(first), line_data(second)) {
                (Some(a), Some(b)) => next_data(event) == (Some(a + "\n"@ + b), rest),
                (Some(a), None) => a.len() > 0 ==> next_data(event) == (Some(a), rest),
                (None, Some(b)) => b.len() > 0 ==> next_data(event) == (Some(b), rest),
                (None, None) => next_data(event) == next_data(rest),
            }
        }),
{
    reveal_strlit("\n");
    reveal_strlit("\n\n");
    let block = first + "\n"@ + second;
    let event = block + "\n\n"@ + rest;
    let at = block.len() as int;
    let n = first.len() as int;
    assert(block[n] == '\n');
    assert forall|i: int| 0 <= i < block.len() && i != n implies #[trigger] block[i] != '\n' by {
        if i < n {
            assert(block[i] == first[i]);
        } else {
            assert(block[i] == second[i - n - 1]);
        }
    }
    assert forall|i: int| 0 <= i < at implies !crate::text::stands_at(event, "\n\n"@, i) by {
        if crate::text::stands_at(event, "\n\n"@, i) {
            assert(event.subrange(i, i + 2)[0] == '\n' && event.subrange(i, i + 2)[1] == '\n');
            assert(event[i] == block[i]);
            assert(i == n);
            assert(event[n + 1] == second[0]);
        }
    }
    assert(event.subrange(at, at + 2) =~= "\n\n"@);
    crate::text::lemma_position_of_unique(event, "\n\n"@, at);
    assert(event.take(at) =~= block);
    assert(event.skip(at + 2) =~= rest);
    // The block is made of the two lines.
    crate::text::lemma_first_of_unique(block, '\n', n);
    assert(block.take(n) =~= first);
    assert(block.skip(n + 1) =~= second);
    crate::text::lemma_first_of_unique(second, '\n', second.len() as int);
    let lines = crate::text::pieces(block, '\n');
    assert(crate::text::pieces(second, '\n') == seq![second]);
    assert(crate::text::before_first(block, '\n') == first);
    assert(crate::text::after_first(block, '\n') == Some(second));
    assert(lines == seq![first] + seq![second]);
    let pick = |line: Seq<char>| line_data(line);
    crate::lists::lemma_picked_in_a_row(seq![first], seq![second], pick);
    Seq::<Seq<char>>::lemma_filter_map_singleton(first, pick);
    Seq::<Seq<char>>::lemma_filter_map_singleton(second, pick);
    let said = lines.filter_map(pick);
    match (line_data(first), line_data(second)) {
        (Some(a), Some(b)) => {
            assert(said =~= seq![a, b]);
            assert(said.drop_last() =~= seq![a]);
            assert(crate::text::joined(seq![a], "\n"@) == a);
            assert(block_data(block) == a + "\n"@ + b);
        },
        (Some(a), None) => {
            assert(said =~= seq![a]);
        },
        (None, Some(b)) => {
            assert(said =~= seq![b]);
        },
        (None, None) => {
            assert(said =~= Seq::<Seq<char>>::empty());
        },
    }
}

/// What a line says behind `data:` is taken without the whitespace around it; no other line says
/// data.
pub proof fn law_data_lines_are_marked(line: Seq<char>, said: Seq<char>)
    ensures
        line_data("data:"@ + said) == Some(crate::text::trimmed(said)),
        line.len() > 0 && !crate::text::whitespace(line[0]) && line[0] != 'd' ==> line_data(line)
            is None,
{
    reveal_strlit("data:");
    let whole = "data:"@ + said;
    crate::text::lemma_trimmed_end_behind("data:"@, said);
    assert(!crate::text::whitespace(whole[0]));
    assert(crate::text::trimmed(whole) == "data:"@ + crate::text::trimmed_end(said));
    let trimmed = crate::text::trimmed(whole);
    assert(trimmed.take(5) =~= "data:"@);
    assert(trimmed.skip(5) =~= crate::text::trimmed_end(said));
    crate::text::lemma_trimming_order_does_not_matter(said);
    if line.len() > 0 && !crate::text::whitespace(line[0]) && line[0] != 'd' {
        crate::text::lemma_trimmed_end_keeps_first(line);
        let kept = crate::text::trimmed(line);
        if "data:"@.is_prefix_of(kept) {
            assert(kept.take(5)[0] == 'd');
            assert(kept[0] == line[0]);
        }
    }
}

/// Events whose lines end in `\r\n` are read like the others. It takes a text in which no line
/// ends in `\n` twice in a row: at such a place the text would be split first.
pub proof fn law_crlf_events_are_read(data: Seq<char>, rest: Seq<char>)
    requires
        one_line(data),
        forall|i: int| 0 <= i < data.len() ==> #[trigger] data[i] != '\r',
        crate::text::position_of("data: "@ + data + "\r\n\r\n"@ + rest, "\n\n"@) is None,
    ensures
        next_data("data: "@ + data + "\r\n\r\n"@ + rest) == (Some(data), rest),
{
    reveal_strlit("data: ");
    reveal_strlit("data:");
    reveal_strlit("\r\n\r\n");
    let block = "data: "@ + data;
    let buffer = "data: "@ + data + "\r\n\r\n"@ + rest;
    let crlf = "\r\n\r\n"@;
    let at = block.len() as int;
    assert forall|i: int| 0 <= i < at implies !crate::text::stands_at(buffer, crlf, i) by {
        if crate::text::stands_at(buffer, crlf, i) {
            assert(buffer.subrange(i, i + 4)[0] == '\r');
            assert(buffer[i] == block[i]);
            if i >= 6 {
                assert(block[i] == data[i - 6]);
            }
        }
    }
    assert(buffer.subrange(at, at + 4) =~= crlf);
    crate::text::lemma_position_of_unique(buffer, crlf, at);
    assert(buffer.take(at) =~= block);
    assert(buffer.skip(at + 4) =~= rest);
    assert forall|i: int| 0 <= i < block.len() implies block[i] != '\n' by {
        if i >= 6 {
            assert(block[i] == data[i - 6]);
        }
    }
    crate::text::lemma_first_of_unique(block, '\n', at);
    assert(crate::text::pieces(block, '\n') == seq![block]);
    let said = seq![' '] + data;
    assert(block =~= "data:"@ + said);
    law_data_lines_are_marked(Seq::empty(), said);
    assert(said.drop_first() =~= data);
    assert(crate::text::trimmed(said) == data);
    let pick = |line: Seq<char>| line_data(line);
    Seq::<Seq<char>>::lemma_filter_map_singleton(block, pick);
}

} // verus!
