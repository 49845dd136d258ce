//! Turning a Chat Completions reply, streamed or whole, into the server-sent
//! events of the Responses API: one assistant message for the text, one
//! function call item per tool call, and a final `response.completed`.
use vstd::prelude::*;
use crate::json::{items_view, key_position, members_view, Json, JsonNumber, JsonValue, NumberModel};
use crate::json_text::json_text;
use crate::responses::{jstr, str_or};

verus! {

broadcast use vstd::string::group_string_axioms;

pub open spec fn num(n: u64) -> Json {
    Json::Number(NumberModel::Unsigned(n))
}

pub open spec fn empty_list() -> Json {
    Json::Array(Seq::empty())
}

/// The assistant message being streamed.
pub struct MessageState {
    pub output_index: usize,
    pub id: Seq<char>,
    pub text: Seq<char>,
    pub opened: bool,
    pub closed: bool,
}

/// A function call being streamed, under the index the provider gave it.
pub struct ToolState {
    pub index: usize,
    pub output_index: usize,
    pub id: Seq<char>,
    pub call_id: Seq<char>,
    pub name: Seq<char>,
    pub arguments: Seq<char>,
    pub opened: bool,
    pub closed: bool,
}

/// What a stream has sent and gathered so far.
pub struct StreamState {
    pub response_id: Seq<char>,
    pub created_at: u64,
    pub model: Seq<char>,
    pub sequence: u64,
    pub next_output_index: usize,
    pub message: Option<MessageState>,
    pub tools: Seq<ToolState>,
    pub usage: Json,
    pub done: bool,
}

#[derive(Debug)]
pub struct MessageOutput {
    pub output_index: usize,
    pub id: String,
    pub text: String,
    pub opened: bool,
    pub closed: bool,
}

#[derive(Debug)]
pub struct ToolOutput {
    pub index: usize,
    pub output_index: usize,
    pub id: String,
    pub call_id: String,
    pub name: String,
    pub arguments: String,
    pub opened: bool,
    pub closed: bool,
}

/// A Responses event stream fed by a Chat Completions reply. Tool calls are
/// kept in the order they first appeared.
#[derive(Debug)]
pub struct ResponseStream {
    pub response_id: String,
    pub created_at: u64,
    pub model: String,
    pub sequence: u64,
    pub next_output_index: usize,
    pub message: Option<MessageOutput>,
    pub tools: Vec<ToolOutput>,
    pub usage: JsonValue,
    pub done: bool,
}

impl View for MessageOutput {
    type V = MessageState;

    open spec fn view(&self) -> MessageState {
        MessageState {
            output_index: self.output_index,
            id: self.id@,
            text: self.text@,
            opened: self.opened,
            closed: self.closed,
        }
    }
}

impl View for ToolOutput {
    type V = ToolState;

    open spec fn view(&self) -> ToolState {
        ToolState {
            index: self.index,
            output_index: self.output_index,
            id: self.id@,
            call_id: self.call_id@,
            name: self.name@,
            arguments: self.arguments@,
            opened: self.opened,
            closed: self.closed,
        }
    }
}

impl View for ResponseStream {
    type V = StreamState;

    open spec fn view(&self) -> StreamState {
        StreamState {
            response_id: self.response_id@,
            created_at: self.created_at,
            model: self.model@,
            sequence: self.sequence,
            next_output_index: self.next_output_index,
            message: match self.message {
                Some(m) => Some(m@),
                None => None,
            },
            tools: self.tools@.map_values(|t: ToolOutput| t@),
            usage: self.usage@,
            done: self.done,
        }
    }
}

pub open spec fn output_item_added(output_index: usize, item: Json) -> Json {
    Json::Object(
        seq![("type"@, jstr("response.output_item.added"@)), ("output_index"@, num(output_index as u64)), ("item"@, item)],
    )
}

pub open spec fn output_item_done(output_index: usize, item: Json) -> Json {
    Json::Object(
        seq![("type"@, jstr("response.output_item.done"@)), ("output_index"@, num(output_index as u64)), ("item"@, item)],
    )
}

pub open spec fn text_part(text: Seq<char>) -> Json {
    Json::Object(
        seq![("type"@, jstr("output_text"@)), ("text"@, jstr(text)), ("annotations"@, empty_list()), ("logprobs"@, empty_list())],
    )
}

/// The message as an item just opened.
pub open spec fn message_opening(m: MessageState) -> Json {
    Json::Object(
        seq![
            ("id"@, jstr(m.id)),
            ("type"@, jstr("message"@)),
            ("status"@, jstr("in_progress"@)),
            ("role"@, jstr("assistant"@)),
            ("content"@, empty_list()),
        ],
    )
}

pub open spec fn part_added(m: MessageState) -> Json {
    Json::Object(
        seq![
            ("type"@, jstr("response.content_part.added"@)),
            ("item_id"@, jstr(m.id)),
            ("output_index"@, num(m.output_index as u64)),
            ("content_index"@, num(0)),
            ("part"@, text_part(Seq::empty())),
        ],
    )
}

pub open spec fn text_delta(m: MessageState, delta: Seq<char>) -> Json {
    Json::Object(
        seq![
            ("type"@, jstr("response.output_text.delta"@)),
            ("item_id"@, jstr(m.id)),
            ("output_index"@, num(m.output_index as u64)),
            ("content_index"@, num(0)),
            ("delta"@, jstr(delta)),
            ("logprobs"@, empty_list()),
        ],
    )
}

pub open spec fn text_done(m: MessageState) -> Json {
    Json::Object(
        seq![
            ("type"@, jstr("response.output_text.done"@)),
            ("item_id"@, jstr(m.id)),
            ("output_index"@, num(m.output_index as u64)),
            ("content_index"@, num(0)),
            ("text"@, jstr(m.text)),
            ("logprobs"@, empty_list()),
        ],
    )
}

pub open spec fn part_done(m: MessageState) -> Json {
    Json::Object(
        seq![
            ("type"@, jstr("response.content_part.done"@)),
            ("item_id"@, jstr(m.id)),
            ("output_index"@, num(m.output_index as u64)),
            ("content_index"@, num(0)),
            ("part"@, text_part(m.text)),
        ],
    )
}

/// The message as an output item, its output index carried along.
pub open spec fn message_item(m: MessageState, status: Seq<char>) -> Json {
    Json::Object(
        seq![
            ("_output_index"@, num(m.output_index as u64)),
            ("id"@, jstr(m.id)),
            ("type"@, jstr("message"@)),
            ("status"@, jstr(status)),
            ("role"@, jstr("assistant"@)),
            ("content"@, Json::Array(seq![text_part(m.text)])),
        ],
    )
}

/// The function call as an item just opened.
pub open spec fn tool_opening(t: ToolState) -> Json {
    Json::Object(
        seq![
            ("id"@, jstr(t.id)),
            ("type"@, jstr("function_call"@)),
            ("status"@, jstr("in_progress"@)),
            ("call_id"@, jstr(t.call_id)),
            ("name"@, jstr(t.name)),
            ("arguments"@, jstr(Seq::empty())),
        ],
    )
}

/// The function call as an output item, its output index carried along.
pub open spec fn tool_item(t: ToolState, status: Seq<char>) -> Json {
    Json::Object(
        seq![
            ("_output_index"@, num(t.output_index as u64)),
            ("id"@, jstr(t.id)),
            ("type"@, jstr("function_call"@)),
            ("status"@, jstr(status)),
            ("call_id"@, jstr(t.call_id)),
            ("name"@, jstr(t.name)),
            ("arguments"@, jstr(t.arguments)),
        ],
    )
}

pub open spec fn arguments_delta(t: ToolState, delta: Seq<char>) -> Json {
    Json::Object(
        seq![
            ("type"@, jstr("response.function_call_arguments.delta"@)),
            ("item_id"@, jstr(t.id)),
            ("output_index"@, num(t.output_index as u64)),
            ("delta"@, jstr(delta)),
        ],
    )
}

pub open spec fn arguments_done(t: ToolState) -> Json {
    Json::Object(
        seq![
            ("type"@, jstr("response.function_call_arguments.done"@)),
            ("item_id"@, jstr(t.id)),
            ("output_index"@, num(t.output_index as u64)),
            ("arguments"@, jstr(t.arguments)),
        ],
    )
}

pub open spec fn response_event(kind: Seq<char>, response: Json) -> Json {
    Json::Object(seq![("type"@, jstr(kind)), ("response"@, response)])
}

/// Token usage in Responses form, all zero.
pub open spec fn zero_usage() -> Json {
    usage_json(0, 0, 0, 0, 0)
}

pub open spec fn usage_json(input: u64, cached: u64, output: u64, reasoning: u64, total: u64) -> Json {
    Json::Object(
        seq![
            ("input_tokens"@, num(input)),
            ("input_tokens_details"@, Json::Object(seq![("cached_tokens"@, num(cached))])),
            ("output_tokens"@, num(output)),
            ("output_tokens_details"@, Json::Object(seq![("reasoning_tokens"@, num(reasoning))])),
            ("total_tokens"@, num(total)),
        ],
    )
}

pub open spec fn u64_or(v: Option<u64>, fallback: u64) -> u64 {
    match v {
        Some(n) => n,
        None => fallback,
    }
}

pub open spec fn u64_member(v: Json, key: Seq<char>) -> Option<u64> {
    match v.get(key) {
        Some(x) => x.u64_of(),
        None => None,
    }
}

pub open spec fn u64_path(v: Json, first: Seq<char>, second: Seq<char>) -> Option<u64> {
    match v.at(seq![first, second]) {
        Some(x) => x.u64_of(),
        None => None,
    }
}

/// Chat usage in Responses form: prompt and completion tokens; cached tokens
/// from the prompt details, else a provider's cache-hit count, else a plain
/// cached count; reasoning tokens from the completion details; the total as
/// given, else (wrapping) the sum of input and output.
pub open spec fn chat_usage(usage: Json) -> Json {
    let input = u64_or(u64_member(usage, "prompt_tokens"@), 0);
    let cached = match u64_path(usage, "prompt_tokens_details"@, "cached_tokens"@) {
        Some(n) => n,
        None => match u64_member(usage, "prompt_cache_hit_tokens"@) {
            Some(n) => n,
            None => u64_or(u64_member(usage, "cached_tokens"@), 0),
        },
    };
    let output = u64_or(u64_member(usage, "completion_tokens"@), 0);
    let reasoning = u64_or(u64_path(usage, "completion_tokens_details"@, "reasoning_tokens"@), 0);
    let total = u64_or(u64_member(usage, "total_tokens"@), input.wrapping_add(output));
    usage_json(input, cached, output, reasoning, total)
}

/// The response object as it stands: usage is `null` while in progress.
pub open spec fn response_object(s: StreamState, status: Seq<char>, output: Seq<Json>) -> Json {
    Json::Object(
        seq![
            ("id"@, jstr(s.response_id)),
            ("object"@, jstr("response"@)),
            ("created_at"@, num(s.created_at)),
            ("status"@, jstr(status)),
            ("background"@, Json::Bool(false)),
            ("error"@, Json::Null),
            ("incomplete_details"@, Json::Null),
            ("instructions"@, Json::Null),
            ("max_output_tokens"@, Json::Null),
            ("model"@, jstr(s.model)),
            ("output"@, Json::Array(output)),
            ("parallel_tool_calls"@, Json::Bool(true)),
            ("previous_response_id"@, Json::Null),
            ("reasoning"@, Json::Object(seq![("effort"@, Json::Null), ("summary"@, Json::Null)])),
            ("store"@, Json::Bool(false)),
            ("temperature"@, Json::Null),
            ("text"@, Json::Object(seq![("format"@, Json::Object(seq![("type"@, jstr("text"@))]))])),
            ("tool_choice"@, jstr("auto"@)),
            ("tools"@, empty_list()),
            ("top_p"@, Json::Null),
            ("truncation"@, jstr("disabled"@)),
            ("usage"@, if status == "in_progress"@ {
                Json::Null
            } else {
                s.usage
            }),
            ("user"@, Json::Null),
            ("metadata"@, Json::Object(Seq::empty())),
        ],
    )
}

/// An event as sent: its members with the sequence number last, after an
/// `event:` line naming its type.
pub open spec fn frame_text(event: Json, sequence: u64) -> Seq<char> {
    let sent = match event {
        Json::Object(members) => Json::Object(members.push(("sequence_number"@, num(sequence)))),
        other => other,
    };
    "event: "@ + str_or(event.str_at("type"@), "message"@) + "\ndata: "@ + json_text(sent) + "\n\n"@
}

/// Events framed from sequence number `start` on, counting modulo 2^64.
pub open spec fn frames_of(events: Seq<Json>, start: u64) -> Seq<Seq<char>> {
    Seq::new(events.len(), |i: int| frame_text(events[i], (start + i) as u64))
}


/// The position of the first tool call under provider index `index`.
pub open spec fn tool_position(tools: Seq<ToolState>, index: usize) -> Option<int>
    decreases tools.len(),
{
    if tools.len() == 0 {
        None
    } else if tools[0].index == index {
        Some(0)
    } else {
        match tool_position(tools.drop_first(), index) {
            Some(k) => Some(k + 1),
            None => None,
        }
    }
}

proof fn lemma_tool_position(tools: Seq<ToolState>, index: usize, k: int)
    requires
        0 <= k <= tools.len(),
        forall|q: int| 0 <= q < k ==> tools[q].index != index,
        k < tools.len() ==> tools[k].index == index,
    ensures
        tool_position(tools, index) == if k < tools.len() {
            Some(k)
        } else {
            None::<int>
        },
    decreases tools.len(),
{
    if tools.len() > 0 && k > 0 {
        assert forall|q: int| 0 <= q < k - 1 implies tools.drop_first()[q].index != index by {
            assert(tools.drop_first()[q] == tools[q + 1]);
        }
        lemma_tool_position(tools.drop_first(), index, k - 1);
    }
}

/// The stream after a piece of text: the message is created on first text
/// and opened (with its content part) before its first delta.
pub open spec fn text_step(s: StreamState, delta: Seq<char>) -> (StreamState, Seq<Json>) {
    let (s1, m) = match s.message {
        Some(m) => (s, m),
        None => (
            StreamState { next_output_index: s.next_output_index.wrapping_add(1), ..s },
            MessageState {
                output_index: s.next_output_index,
                id: "msg_"@ + s.response_id,
                text: Seq::empty(),
                opened: false,
                closed: false,
            },
        ),
    };
    let opening = if m.opened {
        Seq::empty()
    } else {
        seq![output_item_added(m.output_index, message_opening(m)), part_added(m)]
    };
    let m2 = MessageState { opened: true, text: m.text + delta, ..m };
    (StreamState { message: Some(m2), ..s1 }, opening.push(text_delta(m, delta)))
}

/// A tool name after a streamed name fragment: a fragment that extends the
/// name replaces it, one that the name already ends with is not repeated,
/// any other is appended.
pub open spec fn merged_name(current: Seq<char>, name: Seq<char>) -> Seq<char> {
    if name.len() == 0 {
        current
    } else if current.len() == 0 || crate::text::has_prefix(name, current) {
        name
    } else if !crate::text::has_suffix(current, name) {
        current + name
    } else {
        current
    }
}

/// The tool call under provider index `index`, created on first sight with
/// the next output index and, when the provider gave none, a call ID of its own.
pub open spec fn tool_slot(s: StreamState, index: usize, call_id: Seq<char>) -> (StreamState, int) {
    match tool_position(s.tools, index) {
        Some(k) => (s, k),
        None => {
            let suffix = "_"@ + crate::text::decimal(index as nat);
            let t = ToolState {
                index,
                output_index: s.next_output_index,
                id: "fc_"@ + s.response_id + suffix,
                call_id: if call_id.len() == 0 {
                    "call_"@ + s.response_id + suffix
                } else {
                    call_id
                },
                name: Seq::empty(),
                arguments: Seq::empty(),
                opened: false,
                closed: false,
            };
            (
                StreamState { next_output_index: s.next_output_index.wrapping_add(1), tools: s.tools.push(t), ..s },
                s.tools.len() as int,
            )
        },
    }
}

/// A tool call after a delta: it takes the provider's call ID and name,
/// opens once it has a name, and gathers its arguments, each piece sent once
/// the call is open.
pub open spec fn tool_update(t0: ToolState, call_id: Seq<char>, name: Seq<char>, arguments: Seq<char>) -> (ToolState, Seq<Json>) {
    let t1 = ToolState {
        call_id: if call_id.len() > 0 {
            call_id
        } else {
            t0.call_id
        },
        name: merged_name(t0.name, name),
        ..t0
    };
    let opens = !t1.opened && t1.name.len() > 0;
    let t2 = ToolState { opened: t1.opened || opens, ..t1 };
    let opening = if opens {
        seq![output_item_added(t2.output_index, tool_opening(t2))]
    } else {
        Seq::empty()
    };
    let t3 = ToolState { arguments: t2.arguments + arguments, ..t2 };
    let events = if arguments.len() > 0 && t3.opened {
        opening.push(arguments_delta(t3, arguments))
    } else {
        opening
    };
    (t3, events)
}

/// The stream after a tool call delta.
pub open spec fn tool_step(s: StreamState, tool: Json) -> (StreamState, Seq<Json>) {
    let index: usize = match u64_member(tool, "index"@) {
        Some(n) => n as usize,
        None => s.tools.len() as usize,
    };
    let function = match tool.get("function"@) {
        Some(f) => f,
        None => Json::Null,
    };
    let call_id = str_or(tool.str_at("id"@), Seq::empty());
    let name = str_or(function.str_at("name"@), Seq::empty());
    let arguments = str_or(function.str_at("arguments"@), Seq::empty());
    let (s1, k) = tool_slot(s, index, call_id);
    let (t, events) = tool_update(s1.tools[k], call_id, name, arguments);
    (StreamState { tools: s1.tools.update(k, t), ..s1 }, events)
}

/// The stream after the first `n` tool call deltas of a choice.
pub open spec fn tools_fold(s: StreamState, calls: Seq<Json>, n: nat) -> (StreamState, Seq<Json>)
    decreases n,
{
    if n == 0 || n > calls.len() {
        (s, Seq::empty())
    } else {
        let (s1, e1) = tools_fold(s, calls, (n - 1) as nat);
        let (s2, e2) = tool_step(s1, calls[n - 1]);
        (s2, e1 + e2)
    }
}

/// One choice of a reply: its text (when not empty), then its tool calls,
/// read from the member named `key` (`delta` in a chunk, `message` in a
/// whole reply).
pub open spec fn choice_step(s: StreamState, choice: Json, key: Seq<char>) -> (StreamState, Seq<Json>) {
    let part = match choice.get(key) {
        Some(p) => p,
        None => Json::Null,
    };
    let (s1, e1) = match part.str_at("content"@) {
        Some(c) => if c.len() > 0 {
            text_step(s, c)
        } else {
            (s, Seq::empty())
        },
        None => (s, Seq::empty()),
    };
    let calls = match part.get("tool_calls"@) {
        Some(Json::Array(cs)) => cs,
        _ => Seq::empty(),
    };
    let (s2, e2) = tools_fold(s1, calls, calls.len());
    (s2, e1 + e2)
}

pub open spec fn choices_fold(s: StreamState, choices: Seq<Json>, n: nat, key: Seq<char>) -> (StreamState, Seq<Json>)
    decreases n,
{
    if n == 0 || n > choices.len() {
        (s, Seq::empty())
    } else {
        let (s1, e1) = choices_fold(s, choices, (n - 1) as nat, key);
        let (s2, e2) = choice_step(s1, choices[n - 1], key);
        (s2, e1 + e2)
    }
}

/// A reply, streamed chunk or whole: it may name the model and carry usage
/// (a `null` usage counts only in a whole reply), then its choices.
pub open spec fn reply_step(s: StreamState, reply: Json, key: Seq<char>, whole: bool) -> (StreamState, Seq<Json>) {
    let s1 = match reply.str_at("model"@) {
        Some(m) => StreamState { model: m, ..s },
        None => s,
    };
    let s2 = match reply.get("usage"@) {
        Some(u) => if !whole && u is Null {
            s1
        } else {
            StreamState { usage: chat_usage(u), ..s1 }
        },
        None => s1,
    };
    let choices = match reply.get("choices"@) {
        Some(Json::Array(cs)) => cs,
        _ => Seq::empty(),
    };
    choices_fold(s2, choices, choices.len(), key)
}

/// An output item without the output index it carried.
pub open spec fn strip_index(item: Json) -> Json {
    Json::Object(item->Object_0.drop_first())
}

/// The items to report, each with its output index: the message (once
/// opened), then the tool calls in order of appearance.
pub open spec fn output_entries(s: StreamState) -> Seq<(usize, Json)> {
    let head = match s.message {
        Some(m) => if m.opened {
            seq![(m.output_index, strip_index(message_item(m, "completed"@)))]
        } else {
            Seq::empty()
        },
        None => Seq::empty(),
    };
    head + s.tools.map_values(|t: ToolState| tool_entry(t))
}

pub open spec fn tool_entry(t: ToolState) -> (usize, Json) {
    (t.output_index, strip_index(tool_item(t, "completed"@)))
}

/// The first entry with a key above `key`, or the count.
pub open spec fn first_greater(entries: Seq<(usize, Json)>, key: usize) -> int
    decreases entries.len(),
{
    if entries.len() == 0 {
        0
    } else if entries[0].0 > key {
        0
    } else {
        1 + first_greater(entries.drop_first(), key)
    }
}

/// The first `n` entries ordered by key, entries with equal keys keeping
/// their order (each entry goes after every earlier one with a key not above
/// its own).
pub open spec fn ordered_entries(entries: Seq<(usize, Json)>, n: nat) -> Seq<(usize, Json)>
    decreases n,
{
    if n == 0 || n > entries.len() {
        Seq::empty()
    } else {
        let sorted = ordered_entries(entries, (n - 1) as nat);
        sorted.insert(first_greater(sorted, entries[n - 1].0), entries[n - 1])
    }
}

/// The output of the response: its items ordered by output index.
pub open spec fn completed_output(s: StreamState) -> Seq<Json> {
    let entries = output_entries(s);
    ordered_entries(entries, entries.len()).map_values(|e: (usize, Json)| e.1)
}

/// The tool calls after the first `n` are closed: each not yet closed is
/// opened if it never was, and its arguments and item are completed.
pub open spec fn close_tools(tools: Seq<ToolState>, n: nat) -> (Seq<ToolState>, Seq<Json>)
    decreases n,
{
    if n == 0 || n > tools.len() {
        (tools, Seq::empty())
    } else {
        let (ts, ev) = close_tools(tools, (n - 1) as nat);
        let t = ts[n - 1];
        if t.closed {
            (ts, ev)
        } else {
            let opening = if t.opened {
                Seq::empty()
            } else {
                seq![output_item_added(t.output_index, tool_item(t, "in_progress"@))]
            };
            let t2 = ToolState { closed: true, opened: true, ..t };
            (
                ts.update(n - 1, t2),
                ev + opening + seq![arguments_done(t2), output_item_done(t2.output_index, tool_item(t2, "completed"@))],
            )
        }
    }
}

/// The end of the reply: the open message and every tool call are
/// completed, then the response; nothing once the stream is done.
pub open spec fn finish_step(s: StreamState) -> (StreamState, Seq<Json>) {
    if s.done {
        (s, Seq::empty())
    } else {
        let (message, e1) = match s.message {
            Some(m) => if m.opened && !m.closed {
                (
                    Some(MessageState { closed: true, ..m }),
                    seq![text_done(m), part_done(m), output_item_done(m.output_index, message_item(m, "completed"@))],
                )
            } else {
                (s.message, Seq::empty())
            },
            None => (s.message, Seq::empty()),
        };
        let (tools, e2) = close_tools(s.tools, s.tools.len());
        let s2 = StreamState { done: true, message, tools, ..s };
        (s2, e1 + e2 + seq![response_event("response.completed"@, response_object(s2, "completed"@, completed_output(s2)))])
    }
}

pub open spec fn stream_error(message: Seq<char>) -> Json {
    Json::Object(seq![("code"@, jstr("chat_bridge_stream_error"@)), ("message"@, jstr(message))])
}

/// A failed reply: the response with what was gathered and the error;
/// nothing once the stream is done.
pub open spec fn fail_step(s: StreamState, message: Seq<char>) -> (StreamState, Seq<Json>) {
    if s.done {
        (s, Seq::empty())
    } else {
        let s2 = StreamState { done: true, ..s };
        let response = response_object(s2, "failed"@, completed_output(s2));
        (s2, seq![response_event("response.failed"@, Json::Object(response->Object_0.update(5, ("error"@, stream_error(message)))))])
    }
}

/// A stream that has sent nothing yet.
pub open spec fn new_stream(model: Seq<char>, created_at: u64, unique: u64) -> StreamState {
    StreamState {
        response_id: "resp_xray_"@ + crate::text::decimal(created_at as nat) + "_"@ + crate::text::decimal(unique as nat),
        created_at,
        model,
        sequence: 0,
        next_output_index: 0,
        message: None,
        tools: Seq::empty(),
        usage: zero_usage(),
        done: false,
    }
}

/// After sending `events` from `s`: the sequence number advanced past them.
pub open spec fn after_sending(s: StreamState, events: Seq<Json>) -> StreamState {
    StreamState { sequence: (s.sequence + events.len()) as u64, ..s }
}

pub open spec fn texts(frames: Seq<String>) -> Seq<Seq<char>> {
    frames.map_values(|f: String| f@)
}

fn add_member(members: &mut Vec<(String, JsonValue)>, key: &str, value: JsonValue)
    ensures
        members_view(final(members)@) == members_view(old(members)@).push((key@, value@)),
{
    let ghost v = value@;
    members.push((key.to_owned(), value));
    assert(members_view(members@) =~= members_view(old(members)@).push((key@, v)));
}

fn text(s: &str) -> (r: JsonValue)
    ensures
        r@ == jstr(s@),
{
    JsonValue::String(s.to_owned())
}

fn number(n: u64) -> (r: JsonValue)
    ensures
        r@ == num(n),
{
    JsonValue::Number(JsonNumber::Unsigned(n))
}

fn index_number(n: usize) -> (r: JsonValue)
    ensures
        r@ == num(n as u64),
{
    JsonValue::Number(JsonNumber::Unsigned(n as u64))
}

fn empty_array() -> (r: JsonValue)
    ensures
        r@ == empty_list(),
{
    let r = JsonValue::array(Vec::new());
    assert(r@->Array_0 =~= Seq::<Json>::empty());
    r
}

fn item_event(kind: &str, output_index: usize, item: JsonValue) -> (r: JsonValue)
    ensures
        r@ == Json::Object(seq![("type"@, jstr(kind@)), ("output_index"@, num(output_index as u64)), ("item"@, item@)]),
{
    let mut m: Vec<(String, JsonValue)> = Vec::new();
    let ghost i = item@;
    add_member(&mut m, "type", text(kind));
    add_member(&mut m, "output_index", index_number(output_index));
    add_member(&mut m, "item", item);
    assert(members_view(m@) =~= seq![("type"@, jstr(kind@)), ("output_index"@, num(output_index as u64)), ("item"@, i)]);
    JsonValue::object(m)
}

fn make_text_part(t: &str) -> (r: JsonValue)
    ensures
        r@ == text_part(t@),
{
    let mut m: Vec<(String, JsonValue)> = Vec::new();
    add_member(&mut m, "type", text("output_text"));
    add_member(&mut m, "text", text(t));
    add_member(&mut m, "annotations", empty_array());
    add_member(&mut m, "logprobs", empty_array());
    assert(members_view(m@) =~= seq![("type"@, jstr("output_text"@)), ("text"@, jstr(t@)), ("annotations"@, empty_list()), ("logprobs"@, empty_list())]);
    JsonValue::object(m)
}

impl MessageOutput {
    fn opening(&self) -> (r: JsonValue)
        ensures
            r@ == message_opening(self@),
    {
        let mut m: Vec<(String, JsonValue)> = Vec::new();
        add_member(&mut m, "id", text(self.id.as_str()));
        add_member(&mut m, "type", text("message"));
        add_member(&mut m, "status", text("in_progress"));
        add_member(&mut m, "role", text("assistant"));
        add_member(&mut m, "content", empty_array());
        assert(members_view(m@) =~= message_opening(self@)->Object_0);
        JsonValue::object(m)
    }

    fn part_added(&self) -> (r: JsonValue)
        ensures
            r@ == part_added(self@),
    {
        let mut m: Vec<(String, JsonValue)> = Vec::new();
        add_member(&mut m, "type", text("response.content_part.added"));
        add_member(&mut m, "item_id", text(self.id.as_str()));
        add_member(&mut m, "output_index", index_number(self.output_index));
        add_member(&mut m, "content_index", number(0));
        add_member(&mut m, "part", make_text_part(""));
        proof {
            reveal_strlit("");
            assert(""@ =~= Seq::<char>::empty());
        }
        assert(members_view(m@) =~= part_added(self@)->Object_0);
        JsonValue::object(m)
    }

    fn text_delta(&self, delta: &str) -> (r: JsonValue)
        ensures
            r@ == text_delta(self@, delta@),
    {
        let mut m: Vec<(String, JsonValue)> = Vec::new();
        add_member(&mut m, "type", text("response.output_text.delta"));
        add_member(&mut m, "item_id", text(self.id.as_str()));
        add_member(&mut m, "output_index", index_number(self.output_index));
        add_member(&mut m, "content_index", number(0));
        add_member(&mut m, "delta", text(delta));
        add_member(&mut m, "logprobs", empty_array());
        assert(members_view(m@) =~= text_delta(self@, delta@)->Object_0);
        JsonValue::object(m)
    }

    fn text_done(&self) -> (r: JsonValue)
        ensures
            r@ == text_done(self@),
    {
        let mut m: Vec<(String, JsonValue)> = Vec::new();
        add_member(&mut m, "type", text("response.output_text.done"));
        add_member(&mut m, "item_id", text(self.id.as_str()));
        add_member(&mut m, "output_index", index_number(self.output_index));
        add_member(&mut m, "content_index", number(0));
        add_member(&mut m, "text", text(self.text.as_str()));
        add_member(&mut m, "logprobs", empty_array());
        assert(members_view(m@) =~= text_done(self@)->Object_0);
        JsonValue::object(m)
    }

    fn part_done(&self) -> (r: JsonValue)
        ensures
            r@ == part_done(self@),
    {
        let mut m: Vec<(String, JsonValue)> = Vec::new();
        add_member(&mut m, "type", text("response.content_part.done"));
        add_member(&mut m, "item_id", text(self.id.as_str()));
        add_member(&mut m, "output_index", index_number(self.output_index));
        add_member(&mut m, "content_index", number(0));
        add_member(&mut m, "part", make_text_part(self.text.as_str()));
        assert(members_view(m@) =~= part_done(self@)->Object_0);
        JsonValue::object(m)
    }

    fn item(&self, status: &str) -> (r: JsonValue)
        ensures
            r@ == message_item(self@, status@),
    {
        let mut content: Vec<JsonValue> = Vec::new();
        content.push(make_text_part(self.text.as_str()));
        let ghost part = content@[0]@;
        let content_value = JsonValue::array(content);
        assert(items_view(content@) =~= seq![part]);
        let mut m: Vec<(String, JsonValue)> = Vec::new();
        add_member(&mut m, "_output_index", index_number(self.output_index));
        add_member(&mut m, "id", text(self.id.as_str()));
        add_member(&mut m, "type", text("message"));
        add_member(&mut m, "status", text(status));
        add_member(&mut m, "role", text("assistant"));
        add_member(&mut m, "content", content_value);
        assert(members_view(m@) =~= message_item(self@, status@)->Object_0);
        JsonValue::object(m)
    }
}

impl ToolOutput {
    fn opening(&self) -> (r: JsonValue)
        ensures
            r@ == tool_opening(self@),
    {
        let mut m: Vec<(String, JsonValue)> = Vec::new();
        add_member(&mut m, "id", text(self.id.as_str()));
        add_member(&mut m, "type", text("function_call"));
        add_member(&mut m, "status", text("in_progress"));
        add_member(&mut m, "call_id", text(self.call_id.as_str()));
        add_member(&mut m, "name", text(self.name.as_str()));
        add_member(&mut m, "arguments", text(""));
        proof {
            reveal_strlit("");
            assert(""@ =~= Seq::<char>::empty());
        }
        assert(members_view(m@) =~= tool_opening(self@)->Object_0);
        JsonValue::object(m)
    }

    fn item(&self, status: &str) -> (r: JsonValue)
        ensures
            r@ == tool_item(self@, status@),
    {
        let mut m: Vec<(String, JsonValue)> = Vec::new();
        add_member(&mut m, "_output_index", index_number(self.output_index));
        add_member(&mut m, "id", text(self.id.as_str()));
        add_member(&mut m, "type", text("function_call"));
        add_member(&mut m, "status", text(status));
        add_member(&mut m, "call_id", text(self.call_id.as_str()));
        add_member(&mut m, "name", text(self.name.as_str()));
        add_member(&mut m, "arguments", text(self.arguments.as_str()));
        assert(members_view(m@) =~= tool_item(self@, status@)->Object_0);
        JsonValue::object(m)
    }

    fn arguments_delta(&self, delta: &str) -> (r: JsonValue)
        ensures
            r@ == arguments_delta(self@, delta@),
    {
        let mut m: Vec<(String, JsonValue)> = Vec::new();
        add_member(&mut m, "type", text("response.function_call_arguments.delta"));
        add_member(&mut m, "item_id", text(self.id.as_str()));
        add_member(&mut m, "output_index", index_number(self.output_index));
        add_member(&mut m, "delta", text(delta));
        assert(members_view(m@) =~= arguments_delta(self@, delta@)->Object_0);
        JsonValue::object(m)
    }

    fn arguments_done(&self) -> (r: JsonValue)
        ensures
            r@ == arguments_done(self@),
    {
        let mut m: Vec<(String, JsonValue)> = Vec::new();
        add_member(&mut m, "type", text("response.function_call_arguments.done"));
        add_member(&mut m, "item_id", text(self.id.as_str()));
        add_member(&mut m, "output_index", index_number(self.output_index));
        add_member(&mut m, "arguments", text(self.arguments.as_str()));
        assert(members_view(m@) =~= arguments_done(self@)->Object_0);
        JsonValue::object(m)
    }
}


/// What a tool call delta carries: its index, call ID, name and arguments.
fn delta_fields(tool: &JsonValue) -> (r: (Option<u64>, &str, &str, &str))
    ensures
        r.0 == u64_member(tool@, "index"@),
        ({
            let function = match tool@.get("function"@) {
                Some(f) => f,
                None => Json::Null,
            };
            &&& r.1@ == str_or(tool@.str_at("id"@), Seq::empty())
            &&& r.2@ == str_or(function.str_at("name"@), Seq::empty())
            &&& r.3@ == str_or(function.str_at("arguments"@), Seq::empty())
        }),
{
    proof {
        reveal_strlit("");
        assert(""@ =~= Seq::<char>::empty());
    }
    let given = match tool.get("index") {
        Some(v) => v.as_u64(),
        None => None,
    };
    let function = tool.get("function");
    let call_id = match tool.str_at("id") {
        Some(c) => c,
        None => "",
    };
    let name = match function {
        Some(f) => match f.str_at("name") {
            Some(n) => n,
            None => "",
        },
        None => "",
    };
    let arguments = match function {
        Some(f) => match f.str_at("arguments") {
            Some(a) => a,
            None => "",
        },
        None => "",
    };
    (given, call_id, name, arguments)
}

impl ResponseStream {
    /// Finds the tool call under provider index `index`.
    fn find_tool(&self, index: usize) -> (r: Option<usize>)
        ensures
            match tool_position(self@.tools, index) {
                Some(k) => r matches Some(x) && x == k,
                None => r is None,
            },
            r matches Some(x) ==> x < self.tools@.len(),
    {
        let ghost ts = self@.tools;
        let mut k: usize = 0;
        while k < self.tools.len()
            invariant
                k <= self.tools@.len(),
                ts == self.tools@.map_values(|t: ToolOutput| t@),
                forall|q: int| 0 <= q < k ==> ts[q].index != index,
            decreases self.tools@.len() - k,
        {
            assert(ts[k as int] == self.tools@[k as int]@);
            if self.tools[k].index == index {
                proof {
                    lemma_tool_position(ts, index, k as int);
                }
                return Some(k);
            }
            k = k + 1;
        }
        proof {
            lemma_tool_position(ts, index, k as int);
        }
        None
    }

    /// Adds a piece of assistant text.
    fn push_text(&mut self, delta: &str, events: &mut Vec<JsonValue>)
        ensures
            ({
                let (s2, ev) = text_step(old(self)@, delta@);
                &&& final(self)@ == s2
                &&& final(self).sequence == old(self).sequence
                &&& items_view(final(events)@) == items_view(old(events)@) + ev
            }),
    {
        let ghost s0 = self@;
        let ghost e0 = items_view(events@);
        let mut m = match self.message.take() {
            Some(m) => m,
            None => {
                let output_index = self.next_output_index;
                self.next_output_index = self.next_output_index.wrapping_add(1);
                MessageOutput {
                    output_index,
                    id: crate::text::concat("msg_", self.response_id.as_str()),
                    text: String::new(),
                    opened: false,
                    closed: false,
                }
            },
        };
        let ghost m0 = m@;
        if !m.opened {
            let added = item_event("response.output_item.added", m.output_index, m.opening());
            events.push(added);
            events.push(m.part_added());
            m.opened = true;
        }
        let delta_event = m.text_delta(delta);
        events.push(delta_event);
        m.text.append(delta);
        self.message = Some(m);
        proof {
            let (s2, ev) = text_step(s0, delta@);
            assert(self@.tools =~= s2.tools);
            assert(items_view(events@) =~= e0 + ev);
        }
    }

    /// The position of the tool call under provider index `index`, created
    /// when new.
    fn tool_slot(&mut self, index: usize, call_id: &str) -> (k: usize)
        ensures
            (final(self)@, k as int) == tool_slot(old(self)@, index, call_id@),
            k < final(self).tools@.len(),
    {
        match self.find_tool(index) {
            Some(k) => k,
            None => {
                let digits = crate::text::decimal_string(index as u128);
                let suffix = crate::text::concat("_", digits.as_str());
                let head = crate::text::concat("fc_", self.response_id.as_str());
                let id = crate::text::concat(head.as_str(), suffix.as_str());
                let call = if call_id.is_empty() {
                    let call_head = crate::text::concat("call_", self.response_id.as_str());
                    crate::text::concat(call_head.as_str(), suffix.as_str())
                } else {
                    call_id.to_owned()
                };
                let output_index = self.next_output_index;
                self.next_output_index = self.next_output_index.wrapping_add(1);
                let n = self.tools.len();
                let ghost before = self.tools@;
                self.tools.push(ToolOutput {
                    index,
                    output_index,
                    id,
                    call_id: call,
                    name: String::new(),
                    arguments: String::new(),
                    opened: false,
                    closed: false,
                });
                assert(self.tools@.map_values(|t: ToolOutput| t@) =~= before.map_values(|t: ToolOutput| t@).push(
                    self.tools@[n as int]@,
                ));
                n
            },
        }
    }

    /// Applies a delta to one tool call.
    fn update_tool(t: &mut ToolOutput, call_id: &str, name: &str, arguments: &str, events: &mut Vec<JsonValue>)
        ensures
            ({
                let (t2, ev) = tool_update(old(t)@, call_id@, name@, arguments@);
                &&& final(t)@ == t2
                &&& items_view(final(events)@) == items_view(old(events)@) + ev
            }),
    {
        let ghost e0 = items_view(events@);
        let ghost t0 = t@;
        if !call_id.is_empty() {
            t.call_id = call_id.to_owned();
        }
        if !name.is_empty() {
            if t.name.as_str().is_empty() || crate::text::str_starts_with(name, t.name.as_str()) {
                t.name = name.to_owned();
            } else if !crate::text::str_ends_with(t.name.as_str(), name) {
                t.name.append(name);
            }
        }
        if !t.opened && !t.name.as_str().is_empty() {
            t.opened = true;
            let added = item_event("response.output_item.added", t.output_index, t.opening());
            events.push(added);
        }
        if !arguments.is_empty() {
            t.arguments.append(arguments);
            if t.opened {
                events.push(t.arguments_delta(arguments));
            }
        }
        proof {
            let (t2, ev) = tool_update(t0, call_id@, name@, arguments@);
            assert(items_view(events@) =~= e0 + ev);
        }
    }

    /// Adds a tool call delta.
    #[verifier::spinoff_prover]
    fn push_tool_delta(&mut self, tool: &JsonValue, events: &mut Vec<JsonValue>)
        ensures
            ({
                let (s2, ev) = tool_step(old(self)@, tool@);
                &&& final(self)@ == s2
                &&& final(self).sequence == old(self).sequence
                &&& items_view(final(events)@) == items_view(old(events)@) + ev
            }),
    {
        let ghost s0 = self@;
        let (given_index, call_id, name, arguments) = delta_fields(tool);
        let index: usize = match given_index {
            Some(n) => n as usize,
            None => self.tools.len(),
        };
        let k = self.tool_slot(index, call_id);
        let ghost s1 = self@;
        let ghost tools1 = self.tools@;
        let mut t = self.tools.remove(k);
        assert(t@ == s1.tools[k as int]);
        Self::update_tool(&mut t, call_id, name, arguments, events);
        let ghost t3 = t@;
        self.tools.insert(k, t);
        proof {
            assert(self.tools@ =~= tools1.update(k as int, self.tools@[k as int]));
            assert(self@.tools =~= s1.tools.update(k as int, t3));
            assert(self@ == (StreamState { tools: s1.tools.update(k as int, t3), ..s1 }));
        }
    }
}


fn u64_at(v: &JsonValue, key: &str) -> (r: Option<u64>)
    ensures
        r == u64_member(v@, key@),
{
    match v.get(key) {
        Some(x) => x.as_u64(),
        None => None,
    }
}

fn u64_at_path(v: &JsonValue, first: &str, second: &str) -> (r: Option<u64>)
    ensures
        r == u64_path(v@, first@, second@),
{
    let path: [&str; 2] = [first, second];
    assert(path@.map_values(|p: &str| p@) =~= seq![first@, second@]);
    match v.pointer(&path) {
        Some(x) => x.as_u64(),
        None => None,
    }
}

fn make_usage(input: u64, cached: u64, output: u64, reasoning: u64, total: u64) -> (r: JsonValue)
    ensures
        r@ == usage_json(input, cached, output, reasoning, total),
{
    let mut m: Vec<(String, JsonValue)> = Vec::new();
    add_member(&mut m, "input_tokens", number(input));
    add_member(&mut m, "input_tokens_details", JsonValue::single_member("cached_tokens", number(cached)));
    add_member(&mut m, "output_tokens", number(output));
    add_member(&mut m, "output_tokens_details", JsonValue::single_member("reasoning_tokens", number(reasoning)));
    add_member(&mut m, "total_tokens", number(total));
    assert(members_view(m@) =~= usage_json(input, cached, output, reasoning, total)->Object_0);
    JsonValue::object(m)
}

/// Chat usage in Responses form.
pub fn chat_usage_to_responses(usage: &JsonValue) -> (r: JsonValue)
    ensures
        r@ == chat_usage(usage@),
{
    let input = match u64_at(usage, "prompt_tokens") {
        Some(n) => n,
        None => 0,
    };
    let cached = match u64_at_path(usage, "prompt_tokens_details", "cached_tokens") {
        Some(n) => n,
        None => match u64_at(usage, "prompt_cache_hit_tokens") {
            Some(n) => n,
            None => match u64_at(usage, "cached_tokens") {
                Some(n) => n,
                None => 0,
            },
        },
    };
    let output = match u64_at(usage, "completion_tokens") {
        Some(n) => n,
        None => 0,
    };
    let reasoning = match u64_at_path(usage, "completion_tokens_details", "reasoning_tokens") {
        Some(n) => n,
        None => 0,
    };
    let total = match u64_at(usage, "total_tokens") {
        Some(n) => n,
        None => input.wrapping_add(output),
    };
    make_usage(input, cached, output, reasoning, total)
}

fn strip(item: JsonValue) -> (r: JsonValue)
    requires
        item@ is Object,
        item@->Object_0.len() > 0,
    ensures
        r@ == strip_index(item@),
{
    let ghost model = item@;
    match item {
        JsonValue::Object(mut members) => {
            assert(model->Object_0 =~= members_view(members@));
            members.remove(0);
            let r = JsonValue::object(members);
            assert(r@->Object_0 =~= model->Object_0.drop_first());
            r
        },
        _ => {
            assert(false);
            JsonValue::Null
        },
    }
}

proof fn lemma_first_greater(entries: Seq<(usize, Json)>, key: usize, k: int)
    requires
        0 <= k <= entries.len(),
        forall|q: int| 0 <= q < k ==> entries[q].0 <= key,
        k < entries.len() ==> entries[k].0 > key,
    ensures
        first_greater(entries, key) == k,
    decreases entries.len(),
{
    if entries.len() > 0 && k > 0 {
        assert forall|q: int| 0 <= q < k - 1 implies entries.drop_first()[q].0 <= key by {
            assert(entries.drop_first()[q] == entries[q + 1]);
        }
        lemma_first_greater(entries.drop_first(), key, k - 1);
    }
}

pub open spec fn entries_view(entries: Seq<(usize, JsonValue)>) -> Seq<(usize, Json)> {
    entries.map_values(|e: (usize, JsonValue)| (e.0, e.1@))
}

impl ResponseStream {
    /// A stream for `model`, identified by its creation time (seconds since
    /// the Unix epoch) and a number unique within the process.
    pub fn new(model: String, created_at: u64, unique: u64) -> (r: Self)
        ensures
            r@ == new_stream(model@, created_at, unique),
    {
        let a = crate::text::decimal_string(created_at as u128);
        let b = crate::text::decimal_string(unique as u128);
        let head = crate::text::concat("resp_xray_", a.as_str());
        let head = crate::text::concat(head.as_str(), "_");
        let response_id = crate::text::concat(head.as_str(), b.as_str());
        let r = ResponseStream {
            response_id,
            created_at,
            model,
            sequence: 0,
            next_output_index: 0,
            message: None,
            tools: Vec::new(),
            usage: make_usage(0, 0, 0, 0, 0),
            done: false,
        };
        assert(r@.tools =~= Seq::<ToolState>::empty());
        r
    }

    /// Sends one event with the next sequence number.
    fn frame(&mut self, event: JsonValue) -> (r: String)
        ensures
            r@ == frame_text(event@, old(self).sequence),
            final(self)@ == (StreamState { sequence: old(self).sequence.wrapping_add(1), ..old(self)@ }),
    {
        let ghost e = event@;
        let kind = match event.str_at("type") {
            Some(k) => crate::text::owned(k),
            None => crate::text::owned("message"),
        };
        let sent = match event {
            JsonValue::Object(mut members) => {
                assert(e->Object_0 =~= members_view(members@));
                add_member(&mut members, "sequence_number", number(self.sequence));
                JsonValue::object(members)
            },
            other => other,
        };
        self.sequence = self.sequence.wrapping_add(1);
        let head = crate::text::concat("event: ", kind.as_str());
        let head = crate::text::concat(head.as_str(), "\ndata: ");
        let body = sent.to_text();
        let head = crate::text::concat(head.as_str(), body.as_str());
        let r = crate::text::concat(head.as_str(), "\n\n");
        assert(self@.tools =~= old(self)@.tools);
        r
    }

    /// Sends events in order.
    fn frame_all(&mut self, events: Vec<JsonValue>) -> (r: Vec<String>)
        ensures
            texts(r@) == frames_of(items_view(events@), old(self).sequence),
            final(self)@ == after_sending(old(self)@, items_view(events@)),
    {
        let ghost all = items_view(events@);
        let ghost start = self.sequence;
        let ghost s0 = self@;
        let mut out: Vec<String> = Vec::new();
        let n = events.len();
        let mut rest = events;
        let mut k: usize = 0;
        while rest.len() > 0
            invariant
                k + rest@.len() == all.len(),
                all.len() == n,
                items_view(rest@) == all.skip(k as int),
                self@ == (StreamState { sequence: (start + k) as u64, ..s0 }),
                start == s0.sequence,
                texts(out@) == frames_of(all, start).take(k as int),
            decreases rest@.len(),
        {
            let ghost before = rest@;
            let e = rest.remove(0);
            assert(e@ == all[k as int]) by {
                assert(items_view(before)[0] == before[0]@);
            }
            assert(items_view(rest@) =~= all.skip(k + 1)) by {
                assert forall|q: int| 0 <= q < rest@.len() implies items_view(rest@)[q] == all.skip(k + 1)[q] by {
                    assert(rest@[q] == before[q + 1]);
                    assert(items_view(before)[q + 1] == all.skip(k as int)[q + 1]);
                }
            }
            let f = self.frame(e);
            assert(f@ == frames_of(all, start)[k as int]);
            proof {
                assert(((start + k) as u64).wrapping_add(1) == (start + k + 1) as u64) by (bit_vector)
                    requires
                        true,
                ;
            }
            let ghost old_out = out@;
            let ghost fv = f@;
            out.push(f);
            assert(texts(out@) =~= texts(old_out).push(fv));
            assert(frames_of(all, start).take(k + 1) =~= frames_of(all, start).take(k as int).push(fv));
            k = k + 1;
        }
        assert(frames_of(all, start).take(k as int) =~= frames_of(all, start));
        out
    }
}


impl ResponseStream {
    fn gather_choice(&mut self, choice: &JsonValue, key: &str, events: &mut Vec<JsonValue>)
        ensures
            ({
                let (s2, ev) = choice_step(old(self)@, choice@, key@);
                &&& final(self)@ == s2
                &&& final(self).sequence == old(self).sequence
                &&& items_view(final(events)@) == items_view(old(events)@) + ev
            }),
    {
        let ghost s0 = self@;
        let ghost e0 = items_view(events@);
        let null = JsonValue::Null;
        let part = match choice.get(key) {
            Some(p) => p,
            None => &null,
        };
        match part.str_at("content") {
            Some(c) => if !c.is_empty() {
                self.push_text(c, events);
            },
            None => {},
        }
        let ghost s1 = self@;
        let ghost e1 = items_view(events@);
        match part.get("tool_calls") {
            Some(JsonValue::Array(calls)) => {
                let ghost whole = part@.get("tool_calls"@)->0;
                assert(whole->Array_0 =~= items_view(calls@));
                let ghost cs = items_view(calls@);
                let mut k: usize = 0;
                while k < calls.len()
                    invariant
                        k <= calls@.len(),
                        cs == items_view(calls@),
                        self.sequence == s0.sequence,
                        ({
                            let (sk, ek) = tools_fold(s1, cs, k as nat);
                            &&& self@ == sk
                            &&& items_view(events@) == e1 + ek
                        }),
                    decreases calls@.len() - k,
                {
                    assert(cs[k as int] == calls@[k as int]@);
                    let ghost before = items_view(events@);
                    self.push_tool_delta(&calls[k], events);
                    proof {
                        let (sk, ek) = tools_fold(s1, cs, k as nat);
                        let (s2, e2) = tool_step(sk, cs[k as int]);
                        assert(items_view(events@) =~= e1 + (ek + e2));
                    }
                    k = k + 1;
                }
            },
            _ => {},
        }
        proof {
            let (s2, ev) = choice_step(s0, choice@, key@);
            assert(items_view(events@) =~= e0 + ev);
        }
    }

    fn gather(&mut self, reply: &JsonValue, key: &str, whole: bool, events: &mut Vec<JsonValue>)
        ensures
            ({
                let (s2, ev) = reply_step(old(self)@, reply@, key@, whole);
                &&& final(self)@ == s2
                &&& final(self).sequence == old(self).sequence
                &&& items_view(final(events)@) == items_view(old(events)@) + ev
            }),
    {
        let ghost s0 = self@;
        let ghost e0 = items_view(events@);
        match reply.str_at("model") {
            Some(m) => {
                self.model = crate::text::owned(m);
            },
            None => {},
        }
        match reply.get("usage") {
            Some(u) => if whole || !u.is_null() {
                self.usage = chat_usage_to_responses(u);
            },
            None => {},
        }
        let ghost s1 = self@;
        assert(s1.tools =~= s0.tools);
        match reply.get("choices") {
            Some(JsonValue::Array(choices)) => {
                let ghost all = reply@.get("choices"@)->0;
                assert(all->Array_0 =~= items_view(choices@));
                let ghost cs = items_view(choices@);
                let mut k: usize = 0;
                while k < choices.len()
                    invariant
                        k <= choices@.len(),
                        cs == items_view(choices@),
                        self.sequence == s0.sequence,
                        ({
                            let (sk, ek) = choices_fold(s1, cs, k as nat, key@);
                            &&& self@ == sk
                            &&& items_view(events@) == e0 + ek
                        }),
                    decreases choices@.len() - k,
                {
                    assert(cs[k as int] == choices@[k as int]@);
                    self.gather_choice(&choices[k], key, events);
                    proof {
                        let (sk, ek) = choices_fold(s1, cs, k as nat, key@);
                        let (s2, e2) = choice_step(sk, cs[k as int], key@);
                        assert(items_view(events@) =~= e0 + (ek + e2));
                    }
                    k = k + 1;
                }
            },
            _ => {
                assert(items_view(events@) =~= e0 + Seq::<Json>::empty());
            },
        }
    }

    /// The events for one streamed Chat chunk.
    pub fn consume_chat_chunk(&mut self, chunk: &JsonValue) -> (r: Vec<String>)
        ensures
            ({
                let (s2, ev) = reply_step(old(self)@, chunk@, "delta"@, false);
                &&& final(self)@ == after_sending(s2, ev)
                &&& texts(r@) == frames_of(ev, old(self).sequence)
            }),
    {
        let mut events: Vec<JsonValue> = Vec::new();
        self.gather(chunk, "delta", false, &mut events);
        assert(items_view(events@) =~= Seq::<Json>::empty() + items_view(events@));
        self.frame_all(events)
    }

    /// The events for a whole (not streamed) Chat reply.
    pub fn consume_chat_response(&mut self, response: &JsonValue) -> (r: Vec<String>)
        ensures
            ({
                let (s2, ev) = reply_step(old(self)@, response@, "message"@, true);
                &&& final(self)@ == after_sending(s2, ev)
                &&& texts(r@) == frames_of(ev, old(self).sequence)
            }),
    {
        let mut events: Vec<JsonValue> = Vec::new();
        self.gather(response, "message", true, &mut events);
        assert(items_view(events@) =~= Seq::<Json>::empty() + items_view(events@));
        self.frame_all(events)
    }
}


pub open spec fn with_error(response: Json, error: Json) -> Json {
    Json::Object(response->Object_0.update(5, ("error"@, error)))
}

fn first_greater_exec(sorted: &Vec<(usize, JsonValue)>, key: usize) -> (p: usize)
    ensures
        p as int == first_greater(entries_view(sorted@), key),
        p <= sorted@.len(),
{
    let ghost es = entries_view(sorted@);
    let mut p: usize = 0;
    while p < sorted.len()
        invariant
            p <= sorted@.len(),
            es == entries_view(sorted@),
            forall|q: int| 0 <= q < p ==> es[q].0 <= key,
        decreases sorted@.len() - p,
    {
        assert(es[p as int].0 == sorted@[p as int].0);
        if sorted[p].0 > key {
            proof {
                lemma_first_greater(es, key, p as int);
            }
            return p;
        }
        p = p + 1;
    }
    proof {
        lemma_first_greater(es, key, p as int);
    }
    p
}

impl ResponseStream {
    fn response_value(&self, status: &str, output: Vec<JsonValue>, error: JsonValue) -> (r: JsonValue)
        ensures
            r@ == with_error(response_object(self@, status@, items_view(output@)), error@),
    {
        let usage = if crate::text::str_eq(status, "in_progress") {
            JsonValue::Null
        } else {
            self.usage.duplicate()
        };
        let ghost out = items_view(output@);
        let mut reasoning: Vec<(String, JsonValue)> = Vec::new();
        add_member(&mut reasoning, "effort", JsonValue::Null);
        add_member(&mut reasoning, "summary", JsonValue::Null);
        assert(members_view(reasoning@) =~= seq![("effort"@, Json::Null), ("summary"@, Json::Null)]);
        let format = JsonValue::single_member("type", text("text"));
        let mut m: Vec<(String, JsonValue)> = Vec::new();
        add_member(&mut m, "id", text(self.response_id.as_str()));
        add_member(&mut m, "object", text("response"));
        add_member(&mut m, "created_at", number(self.created_at));
        add_member(&mut m, "status", text(status));
        add_member(&mut m, "background", JsonValue::Bool(false));
        add_member(&mut m, "error", error);
        add_member(&mut m, "incomplete_details", JsonValue::Null);
        add_member(&mut m, "instructions", JsonValue::Null);
        add_member(&mut m, "max_output_tokens", JsonValue::Null);
        add_member(&mut m, "model", text(self.model.as_str()));
        add_member(&mut m, "output", JsonValue::array(output));
        add_member(&mut m, "parallel_tool_calls", JsonValue::Bool(true));
        add_member(&mut m, "previous_response_id", JsonValue::Null);
        add_member(&mut m, "reasoning", JsonValue::object(reasoning));
        add_member(&mut m, "store", JsonValue::Bool(false));
        add_member(&mut m, "temperature", JsonValue::Null);
        add_member(&mut m, "text", JsonValue::single_member("format", format));
        add_member(&mut m, "tool_choice", text("auto"));
        add_member(&mut m, "tools", empty_array());
        add_member(&mut m, "top_p", JsonValue::Null);
        add_member(&mut m, "truncation", text("disabled"));
        add_member(&mut m, "usage", usage);
        add_member(&mut m, "user", JsonValue::Null);
        let no_members: Vec<(String, JsonValue)> = Vec::new();
        assert(members_view(no_members@) =~= Seq::<(Seq<char>, Json)>::empty());
        add_member(&mut m, "metadata", JsonValue::object(no_members));
        assert(members_view(m@) =~= with_error(response_object(self@, status@, out), error@)->Object_0);
        JsonValue::object(m)
    }

    /// The items of the response, ordered by output index.
    fn completed_output(&self) -> (r: Vec<JsonValue>)
        ensures
            items_view(r@) == completed_output(self@),
    {
        let mut entries: Vec<(usize, JsonValue)> = Vec::new();
        match &self.message {
            Some(m) => if m.opened {
                let item = strip(m.item("completed"));
                entries.push((m.output_index, item));
            },
            None => {},
        }
        let ghost head = entries_view(entries@);
        let ghost ts = self@.tools;
        let mut k: usize = 0;
        while k < self.tools.len()
            invariant
                k <= self.tools@.len(),
                ts == self@.tools,
                entries_view(entries@) == head + ts.take(k as int).map_values(|t: ToolState| tool_entry(t)),
            decreases self.tools@.len() - k,
        {
            let t = &self.tools[k];
            assert(ts[k as int] == t@);
            let item = strip(t.item("completed"));
            let ghost before = entries_view(entries@);
            let ghost entry = (t.output_index, item@);
            assert(entry == tool_entry(ts[k as int]));
            entries.push((t.output_index, item));
            assert(entries_view(entries@) =~= before.push(entry));
            assert(ts.take(k + 1).map_values(|t: ToolState| tool_entry(t)) =~= ts.take(k as int).map_values(
                |t: ToolState| tool_entry(t),
            ).push(tool_entry(ts[k as int])));
            assert(entries_view(entries@) =~= head + ts.take(k + 1).map_values(|t: ToolState| tool_entry(t)));
            k = k + 1;
        }
        let ghost all = entries_view(entries@);
        assert(ts.take(k as int) =~= ts);
        assert(all == output_entries(self@)) by {
            assert(head == match self@.message {
                Some(m) => if m.opened {
                    seq![(m.output_index, strip_index(message_item(m, "completed"@)))]
                } else {
                    Seq::empty()
                },
                None => Seq::empty(),
            });
        }
        let n = entries.len();
        let mut sorted: Vec<(usize, JsonValue)> = Vec::new();
        let mut rest = entries;
        let mut i: usize = 0;
        while rest.len() > 0
            invariant
                i + rest@.len() == n,
                n == all.len(),
                entries_view(rest@) == all.skip(i as int),
                entries_view(sorted@) == ordered_entries(all, i as nat),
            decreases rest@.len(),
        {
            let ghost before = rest@;
            let e = rest.remove(0);
            assert((e.0, e.1@) == all[i as int]) by {
                assert(entries_view(before)[0] == (before[0].0, before[0].1@));
            }
            assert(entries_view(rest@) =~= all.skip(i + 1)) by {
                assert forall|q: int| 0 <= q < rest@.len() implies entries_view(rest@)[q] == all.skip(i + 1)[q] by {
                    assert(rest@[q] == before[q + 1]);
                    assert(entries_view(before)[q + 1] == all.skip(i as int)[q + 1]);
                }
            }
            let p = first_greater_exec(&sorted, e.0);
            let ghost old_sorted = sorted@;
            let ghost ev = (e.0, e.1@);
            sorted.insert(p, e);
            assert(entries_view(sorted@) =~= entries_view(old_sorted).insert(p as int, ev));
            i = i + 1;
        }
        let mut out: Vec<JsonValue> = Vec::new();
        let ghost ordered = entries_view(sorted@);
        let mut j: usize = 0;
        let m = sorted.len();
        let mut rest = sorted;
        while rest.len() > 0
            invariant
                j + rest@.len() == m,
                m == ordered.len(),
                entries_view(rest@) == ordered.skip(j as int),
                items_view(out@) == ordered.take(j as int).map_values(|e: (usize, Json)| e.1),
            decreases rest@.len(),
        {
            let ghost before = rest@;
            let e = rest.remove(0);
            assert((e.0, e.1@) == ordered[j as int]) by {
                assert(entries_view(before)[0] == (before[0].0, before[0].1@));
            }
            assert(entries_view(rest@) =~= ordered.skip(j + 1)) by {
                assert forall|q: int| 0 <= q < rest@.len() implies entries_view(rest@)[q] == ordered.skip(j + 1)[q] by {
                    assert(rest@[q] == before[q + 1]);
                    assert(entries_view(before)[q + 1] == ordered.skip(j as int)[q + 1]);
                }
            }
            let ghost old_out = items_view(out@);
            let ghost v = e.1@;
            out.push(e.1);
            assert(items_view(out@) =~= old_out.push(v));
            assert(ordered.take(j + 1).map_values(|e: (usize, Json)| e.1) =~= ordered.take(j as int).map_values(
                |e: (usize, Json)| e.1,
            ).push(v));
            j = j + 1;
        }
        assert(ordered.take(j as int) =~= ordered);
        out
    }

    /// The event that opens the stream.
    pub fn start(&mut self) -> (r: Vec<String>)
        ensures
            ({
                let ev = seq![response_event("response.created"@, response_object(old(self)@, "in_progress"@, Seq::empty()))];
                &&& final(self)@ == after_sending(old(self)@, ev)
                &&& texts(r@) == frames_of(ev, old(self).sequence)
            }),
    {
        let no_output: Vec<JsonValue> = Vec::new();
        assert(items_view(no_output@) =~= Seq::<Json>::empty());
        let response = self.response_value("in_progress", no_output, JsonValue::Null);
        let ghost rv = response@;
        assert(rv == response_object(self@, "in_progress"@, Seq::empty())) by {
            assert(rv->Object_0 =~= response_object(self@, "in_progress"@, Seq::empty())->Object_0);
        }
        let mut m: Vec<(String, JsonValue)> = Vec::new();
        add_member(&mut m, "type", text("response.created"));
        add_member(&mut m, "response", response);
        assert(members_view(m@) =~= seq![("type"@, jstr("response.created"@)), ("response"@, rv)]);
        let event = JsonValue::object(m);
        let mut events: Vec<JsonValue> = Vec::new();
        events.push(event);
        let ghost ev = seq![response_event("response.created"@, rv)];
        assert(items_view(events@) =~= ev);
        self.frame_all(events)
    }
}


proof fn lemma_close_tools_len(tools: Seq<ToolState>, n: nat)
    ensures
        close_tools(tools, n).0.len() == tools.len(),
    decreases n,
{
    if n > 0 && n <= tools.len() {
        lemma_close_tools_len(tools, (n - 1) as nat);
    }
}

fn response_event_value(kind: &str, response: JsonValue) -> (r: JsonValue)
    ensures
        r@ == response_event(kind@, response@),
{
    let ghost rv = response@;
    let mut m: Vec<(String, JsonValue)> = Vec::new();
    add_member(&mut m, "type", text(kind));
    add_member(&mut m, "response", response);
    assert(members_view(m@) =~= seq![("type"@, jstr(kind@)), ("response"@, rv)]);
    JsonValue::object(m)
}

impl ResponseStream {
    /// The events that end the reply.
    pub fn finish(&mut self) -> (r: Vec<String>)
        ensures
            ({
                let (s2, ev) = finish_step(old(self)@);
                &&& final(self)@ == after_sending(s2, ev)
                &&& texts(r@) == frames_of(ev, old(self).sequence)
            }),
    {
        let ghost s0 = self@;
        if self.done {
            let none: Vec<String> = Vec::new();
            assert(texts(none@) =~= frames_of(Seq::<Json>::empty(), s0.sequence));
            assert(self@.tools =~= s0.tools);
            return none;
        }
        self.done = true;
        let mut events: Vec<JsonValue> = Vec::new();
        match self.message.take() {
            Some(mut m) => {
                if m.opened && !m.closed {
                    events.push(m.text_done());
                    events.push(m.part_done());
                    let item = m.item("completed");
                    events.push(item_event("response.output_item.done", m.output_index, item));
                    m.closed = true;
                }
                self.message = Some(m);
            },
            None => {},
        }
        let ghost e1 = items_view(events@);
        assert(self@.message == match s0.message {
            Some(m) => if m.opened && !m.closed {
                Some(MessageState { closed: true, ..m })
            } else {
                s0.message
            },
            None => s0.message,
        });
        assert(e1 == match s0.message {
            Some(m) => if m.opened && !m.closed {
                seq![text_done(m), part_done(m), output_item_done(m.output_index, message_item(m, "completed"@))]
            } else {
                Seq::<Json>::empty()
            },
            None => Seq::<Json>::empty(),
        });
        let ghost orig = s0.tools;
        assert(self@.tools =~= orig);
        let ghost s_mid = self@;
        proof {
            lemma_close_tools_len(orig, 0);
        }
        let mut k: usize = 0;
        while k < self.tools.len()
            invariant
                k <= self.tools@.len(),
                self.tools@.len() == orig.len(),
                self@.tools == close_tools(orig, k as nat).0,
                items_view(events@) == e1 + close_tools(orig, k as nat).1,
                self.sequence == s0.sequence,
                self.done,
                self@ == (StreamState { tools: self@.tools, ..s_mid }),
            decreases self.tools@.len() - k,
        {
            let ghost before_tools = self.tools@;
            let ghost ev0 = items_view(events@);
            let mut t = self.tools.remove(k);
            let ghost t0 = t@;
            assert(t0 == close_tools(orig, k as nat).0[k as int]);
            if !t.closed {
                if !t.opened {
                    let item = t.item("in_progress");
                    events.push(item_event("response.output_item.added", t.output_index, item));
                    t.opened = true;
                }
                t.closed = true;
                events.push(t.arguments_done());
                let item = t.item("completed");
                events.push(item_event("response.output_item.done", t.output_index, item));
            }
            let ghost tv = t@;
            proof {
                if t0.closed {
                    assert(items_view(events@) =~= ev0);
                } else {
                    let t2 = ToolState { closed: true, opened: true, ..t0 };
                    assert(tv == t2);
                    let opening = if t0.opened {
                        Seq::<Json>::empty()
                    } else {
                        seq![output_item_added(t0.output_index, tool_item(t0, "in_progress"@))]
                    };
                    assert(items_view(events@) =~= ev0 + opening + seq![arguments_done(t2), output_item_done(t2.output_index, tool_item(t2, "completed"@))]);
                }
            }
            self.tools.insert(k, t);
            proof {
                lemma_close_tools_len(orig, (k + 1) as nat);
                assert(self.tools@ =~= before_tools.update(k as int, self.tools@[k as int]));
                assert(self@.tools =~= close_tools(orig, (k + 1) as nat).0);
                assert(items_view(events@) =~= e1 + close_tools(orig, (k + 1) as nat).1);
            }
            k = k + 1;
        }
        proof {
            lemma_close_tools_len(orig, orig.len());
        }
        let ghost s2 = self@;
        assert(s2 == finish_step(s0).0);
        let output = self.completed_output();
        let response = self.response_value("completed", output, JsonValue::Null);
        let ghost rv = response@;
        assert(rv == response_object(s2, "completed"@, completed_output(s2))) by {
            assert(rv->Object_0 =~= response_object(s2, "completed"@, completed_output(s2))->Object_0);
        }
        let ghost before_last = items_view(events@);
        events.push(response_event_value("response.completed", response));
        assert(items_view(events@) =~= before_last.push(response_event("response.completed"@, rv)));
        assert(items_view(events@) =~= finish_step(s0).1);
        self.frame_all(events)
    }

    /// The event that ends a reply that went wrong.
    pub fn fail(&mut self, message: String) -> (r: Vec<String>)
        ensures
            ({
                let (s2, ev) = fail_step(old(self)@, message@);
                &&& final(self)@ == after_sending(s2, ev)
                &&& texts(r@) == frames_of(ev, old(self).sequence)
            }),
    {
        let ghost s0 = self@;
        if self.done {
            let none: Vec<String> = Vec::new();
            assert(texts(none@) =~= frames_of(Seq::<Json>::empty(), s0.sequence));
            assert(self@.tools =~= s0.tools);
            return none;
        }
        self.done = true;
        let ghost s2 = self@;
        assert(s2.tools =~= s0.tools);
        let output = self.completed_output();
        let mut e: Vec<(String, JsonValue)> = Vec::new();
        add_member(&mut e, "code", text("chat_bridge_stream_error"));
        add_member(&mut e, "message", JsonValue::String(message));
        assert(members_view(e@) =~= stream_error(message@)->Object_0);
        let error = JsonValue::object(e);
        let response = self.response_value("failed", output, error);
        let mut events: Vec<JsonValue> = Vec::new();
        events.push(response_event_value("response.failed", response));
        assert(items_view(events@) =~= fail_step(s0, message@).1);
        self.frame_all(events)
    }
}


/// Once a reply has ended, by completion or failure, the stream sends
/// nothing more: neither another completion nor a failure.
pub proof fn law_ended_stream_stays_silent(s: StreamState, message: Seq<char>)
    ensures
        finish_step(finish_step(s).0).1.len() == 0,
        fail_step(finish_step(s).0, message).1.len() == 0,
        finish_step(fail_step(s, message).0).1.len() == 0,
        fail_step(fail_step(s, message).0, message).1.len() == 0,
{
}

/// A name fragment the provider repeats is not appended twice, and the
/// first fragment becomes the name.
pub proof fn law_repeated_name_fragment_kept(name: Seq<char>)
    ensures
        merged_name(name, name) == name,
        merged_name(Seq::empty(), name) == name,
{
    if name.len() > 0 {
        assert(name.subrange(0, name.len() as int) =~= name);
    }
}

} // verus!

verus! {

proof fn lemma_usage_keys()
    ensures
        "input_tokens"@ != "input_tokens_details"@,
        "input_tokens"@ != "output_tokens"@,
        "input_tokens"@ != "output_tokens_details"@,
        "input_tokens"@ != "total_tokens"@,
        "input_tokens_details"@ != "output_tokens"@,
        "input_tokens_details"@ != "output_tokens_details"@,
        "input_tokens_details"@ != "total_tokens"@,
        "output_tokens"@ != "output_tokens_details"@,
        "output_tokens"@ != "total_tokens"@,
        "output_tokens_details"@ != "total_tokens"@,
{
    reveal_strlit("input_tokens");
    reveal_strlit("input_tokens_details");
    reveal_strlit("output_tokens");
    reveal_strlit("output_tokens_details");
    reveal_strlit("total_tokens");
    assert("input_tokens"@.len() != "input_tokens_details"@.len());
    assert("input_tokens"@.len() != "output_tokens"@.len());
    assert("input_tokens"@.len() != "output_tokens_details"@.len());
    assert("input_tokens"@[0] != "total_tokens"@[0]);
    assert("input_tokens_details"@.len() != "output_tokens"@.len());
    assert("input_tokens_details"@.len() != "output_tokens_details"@.len());
    assert("input_tokens_details"@.len() != "total_tokens"@.len());
    assert("output_tokens"@.len() != "output_tokens_details"@.len());
    assert("output_tokens"@.len() != "total_tokens"@.len());
    assert("output_tokens_details"@.len() != "total_tokens"@.len());
}

/// Where each count of a Responses usage object lies.
proof fn lemma_usage_json_members(input: u64, cached: u64, output: u64, reasoning: u64, total: u64)
    ensures
        usage_json(input, cached, output, reasoning, total).get("input_tokens"@) == Some(num(input)),
        usage_json(input, cached, output, reasoning, total).at(seq!["input_tokens_details"@, "cached_tokens"@]) == Some(num(cached)),
        usage_json(input, cached, output, reasoning, total).get("output_tokens"@) == Some(num(output)),
        usage_json(input, cached, output, reasoning, total).at(seq!["output_tokens_details"@, "reasoning_tokens"@]) == Some(num(reasoning)),
        usage_json(input, cached, output, reasoning, total).get("total_tokens"@) == Some(num(total)),
{
    lemma_usage_keys();
    let ms = usage_json(input, cached, output, reasoning, total)->Object_0;
    assert(key_position(ms.drop_first().drop_first().drop_first().drop_first(), "total_tokens"@) == 0);
    assert(key_position(ms.drop_first().drop_first().drop_first(), "output_tokens_details"@) == 0);
    assert(key_position(ms.drop_first().drop_first(), "output_tokens"@) == 0);
    assert(key_position(ms.drop_first(), "input_tokens_details"@) == 0);
    let d1 = ms.drop_first();
    let d2 = d1.drop_first();
    let d3 = d2.drop_first();
    assert(key_position(d3, "total_tokens"@) == 1);
    assert(key_position(d2, "total_tokens"@) == 2);
    assert(key_position(d1, "total_tokens"@) == 3);
    assert(key_position(ms, "total_tokens"@) == 4);
    assert(key_position(d2, "output_tokens_details"@) == 1);
    assert(key_position(d1, "output_tokens_details"@) == 2);
    assert(key_position(ms, "output_tokens_details"@) == 3);
    assert(key_position(d1, "output_tokens"@) == 1);
    assert(key_position(ms, "output_tokens"@) == 2);
    assert(key_position(ms, "input_tokens_details"@) == 1);
    assert(key_position(ms, "input_tokens"@) == 0);
    let u = usage_json(input, cached, output, reasoning, total);
    let p1 = seq!["input_tokens_details"@, "cached_tokens"@];
    assert(p1.drop_first() =~= seq!["cached_tokens"@]);
    assert(p1.drop_first().drop_first() =~= Seq::<Seq<char>>::empty());
    let c1 = Json::Object(seq![("cached_tokens"@, num(cached))]);
    assert(u.get("input_tokens_details"@) == Some(c1));
    assert(c1.get("cached_tokens"@) == Some(num(cached)));
    assert(c1.at(seq!["cached_tokens"@]) == num(cached).at(seq!["cached_tokens"@].drop_first()));
    assert(c1.at(seq!["cached_tokens"@]) == Some(num(cached)));
    assert(u.at(p1) == c1.at(p1.drop_first()));
    let p2 = seq!["output_tokens_details"@, "reasoning_tokens"@];
    assert(p2.drop_first() =~= seq!["reasoning_tokens"@]);
    assert(p2.drop_first().drop_first() =~= Seq::<Seq<char>>::empty());
    let c2 = Json::Object(seq![("reasoning_tokens"@, num(reasoning))]);
    assert(u.get("output_tokens_details"@) == Some(c2));
    assert(c2.get("reasoning_tokens"@) == Some(num(reasoning)));
    assert(c2.at(seq!["reasoning_tokens"@]) == num(reasoning).at(seq!["reasoning_tokens"@].drop_first()));
    assert(c2.at(seq!["reasoning_tokens"@]) == Some(num(reasoning)));
    assert(u.at(p2) == c2.at(p2.drop_first()));
}

proof fn lemma_chat_usage_members(usage: Json)
    ensures
        chat_usage(usage).get("input_tokens"@) == Some(num(u64_or(u64_member(usage, "prompt_tokens"@), 0))),
        chat_usage(usage).get("output_tokens"@) == Some(num(u64_or(u64_member(usage, "completion_tokens"@), 0))),
        chat_usage(usage).at(seq!["output_tokens_details"@, "reasoning_tokens"@]) == Some(
            num(u64_or(u64_path(usage, "completion_tokens_details"@, "reasoning_tokens"@), 0)),
        ),
        chat_usage(usage).at(seq!["input_tokens_details"@, "cached_tokens"@]) == Some(
            num(
                match u64_path(usage, "prompt_tokens_details"@, "cached_tokens"@) {
                    Some(k) => k,
                    None => match u64_member(usage, "prompt_cache_hit_tokens"@) {
                        Some(k) => k,
                        None => u64_or(u64_member(usage, "cached_tokens"@), 0),
                    },
                },
            ),
        ),
        chat_usage(usage).get("total_tokens"@) == Some(
            num(
                u64_or(
                    u64_member(usage, "total_tokens"@),
                    u64_or(u64_member(usage, "prompt_tokens"@), 0).wrapping_add(
                        u64_or(u64_member(usage, "completion_tokens"@), 0),
                    ),
                ),
            ),
        ),
{
    let input = u64_or(u64_member(usage, "prompt_tokens"@), 0);
    let cached = match u64_path(usage, "prompt_tokens_details"@, "cached_tokens"@) {
        Some(k) => k,
        None => match u64_member(usage, "prompt_cache_hit_tokens"@) {
            Some(k) => k,
            None => u64_or(u64_member(usage, "cached_tokens"@), 0),
        },
    };
    let output = u64_or(u64_member(usage, "completion_tokens"@), 0);
    let reasoning = u64_or(u64_path(usage, "completion_tokens_details"@, "reasoning_tokens"@), 0);
    let total = u64_or(u64_member(usage, "total_tokens"@), input.wrapping_add(output));
    lemma_usage_json_members(input, cached, output, reasoning, total);
}

/// Reasoning tokens carry over: a Chat usage whose completion details count
/// `n` reasoning tokens becomes a Responses usage whose output details count
/// `n` reasoning tokens.
pub proof fn law_usage_keeps_reasoning_tokens(usage: Json, n: u64)
    requires
        usage.at(seq!["completion_tokens_details"@, "reasoning_tokens"@]) == Some(num(n)),
    ensures
        chat_usage(usage).at(seq!["output_tokens_details"@, "reasoning_tokens"@]) == Some(num(n)),
{
    lemma_chat_usage_members(usage);
}

/// Prompt and completion tokens carry over as input and output tokens, and a
/// total the Chat usage gives is kept.
pub proof fn law_usage_keeps_token_counts(usage: Json, prompt: u64, completion: u64, total: u64)
    requires
        usage.get("prompt_tokens"@) == Some(num(prompt)),
        usage.get("completion_tokens"@) == Some(num(completion)),
        usage.get("total_tokens"@) == Some(num(total)),
    ensures
        chat_usage(usage).get("input_tokens"@) == Some(num(prompt)),
        chat_usage(usage).get("output_tokens"@) == Some(num(completion)),
        chat_usage(usage).get("total_tokens"@) == Some(num(total)),
{
    lemma_chat_usage_members(usage);
}

/// Cached prompt tokens carry over: a Chat usage whose prompt details count
/// `n` cached tokens becomes a Responses usage whose input details count `n`.
pub proof fn law_usage_keeps_cached_tokens(usage: Json, n: u64)
    requires
        usage.at(seq!["prompt_tokens_details"@, "cached_tokens"@]) == Some(num(n)),
    ensures
        chat_usage(usage).at(seq!["input_tokens_details"@, "cached_tokens"@]) == Some(num(n)),
{
    lemma_chat_usage_members(usage);
}

/// Streamed text is kept and passed on: after a text delta the message's
/// text is what it was (nothing before the first delta) followed by the
/// delta, and the last event sent is a text delta event carrying exactly it.
pub proof fn law_text_delta_appends(s: StreamState, delta: Seq<char>)
    ensures
        ({
            let (n, events) = text_step(s, delta);
            let before = match s.message {
                Some(m) => m.text,
                None => Seq::<char>::empty(),
            };
            &&& n.message matches Some(m) && m.text == before + delta && m.opened
            &&& events.len() > 0
            &&& events.last().str_at("type"@) == Some("response.output_text.delta"@)
            &&& events.last().str_at("delta"@) == Some(delta)
        }),
{
    reveal_strlit("type");
    reveal_strlit("item_id");
    reveal_strlit("output_index");
    reveal_strlit("content_index");
    reveal_strlit("delta");
    let (n, events) = text_step(s, delta);
    let ms = events.last()->Object_0;
    assert("type"@.len() != "delta"@.len());
    assert("item_id"@.len() != "delta"@.len());
    assert("output_index"@.len() != "delta"@.len());
    assert("content_index"@.len() != "delta"@.len());
    let d1 = ms.drop_first();
    let d2 = d1.drop_first();
    let d3 = d2.drop_first();
    assert(key_position(d3.drop_first(), "delta"@) == 0);
    assert(key_position(d3, "delta"@) == 1);
    assert(key_position(d2, "delta"@) == 2);
    assert(key_position(d1, "delta"@) == 3);
    assert(key_position(ms, "delta"@) == 4);
    assert(key_position(ms, "type"@) == 0);
}

/// Streamed arguments of a tool call are kept in order: after a delta the
/// call's arguments are what they were followed by the fragment, and a call ID
/// the delta gives replaces the one kept.
pub proof fn law_tool_arguments_append(t: ToolState, call_id: Seq<char>, name: Seq<char>, arguments: Seq<char>)
    ensures
        tool_update(t, call_id, name, arguments).0.arguments == t.arguments + arguments,
        call_id.len() > 0 ==> tool_update(t, call_id, name, arguments).0.call_id == call_id,
        call_id.len() == 0 ==> tool_update(t, call_id, name, arguments).0.call_id == t.call_id,
        tool_update(t, call_id, name, arguments).0.index == t.index,
{
}

} // verus!
