//! Conversion of a Responses API request into a Chat Completions request,
//! for providers that only speak the latter.
use vstd::prelude::*;
use crate::json::{items_view, key_position, members_view, opt_str_view, opt_view, Json, JsonValue};
use crate::json_text::json_text;

verus! {

broadcast use vstd::string::group_string_axioms;

pub open spec fn jstr(s: Seq<char>) -> Json {
    Json::Str(s)
}

/// A string value as itself, any other value as its JSON text.
pub open spec fn value_text(v: Json) -> Seq<char> {
    match v {
        Json::Str(s) => s,
        _ => json_text(v),
    }
}

pub open spec fn str_or(v: Option<Seq<char>>, fallback: Seq<char>) -> Seq<char> {
    match v {
        Some(s) => s,
        None => fallback,
    }
}

/// A content part in Chat form: text parts keep their text, an image part
/// with a URL becomes an image reference, anything else is dropped.
pub open spec fn part_to_chat(part: Json) -> Option<Json> {
    let t = part.str_at("type"@);
    if t == Some("input_text"@) || t == Some("output_text"@) || t == Some("text"@) {
        Some(Json::Object(seq![("type"@, jstr("text"@)), ("text"@, jstr(str_or(part.str_at("text"@), Seq::empty())))]))
    } else if t == Some("input_image"@) {
        match part.str_at("image_url"@) {
            Some(url) => Some(
                Json::Object(
                    seq![("type"@, jstr("image_url"@)), ("image_url"@, Json::Object(seq![("url"@, jstr(url))]))],
                ),
            ),
            None => None,
        }
    } else {
        None
    }
}

/// The converted parts among the first `n`.
pub open spec fn parts_to_chat(parts: Seq<Json>, n: nat) -> Seq<Json>
    decreases n,
{
    if n == 0 || n > parts.len() {
        Seq::empty()
    } else {
        match part_to_chat(parts[n - 1]) {
            Some(p) => parts_to_chat(parts, (n - 1) as nat).push(p),
            None => parts_to_chat(parts, (n - 1) as nat),
        }
    }
}

/// Message content in Chat form: a string stays; a list of parts is
/// converted, a lone text part collapsing to its text; any other value
/// becomes its text; no content is `null`.
pub open spec fn content_to_chat(content: Option<Json>) -> Json {
    match content {
        Some(Json::Str(s)) => Json::Str(s),
        Some(Json::Array(parts)) => {
            let converted = parts_to_chat(parts, parts.len());
            if converted.len() == 1 && converted[0].str_at("type"@) == Some("text"@) {
                match converted[0].get("text"@) {
                    Some(t) => t,
                    None => Json::Null,
                }
            } else {
                Json::Array(converted)
            }
        },
        Some(other) => Json::Str(value_text(other)),
        None => Json::Null,
    }
}

pub open spec fn unsupported_input_message(kind: Seq<char>) -> Seq<char> {
    "Chat 兼容桥暂不支持 Responses input 类型 "@ + kind + "。"@
}

/// A Responses input item as a Chat message: messages keep their role
/// (`user` when none) and converted content; a function call becomes an
/// assistant message with one tool call; a function output becomes a tool
/// message; reasoning and compaction items are dropped; any other type is
/// refused.
pub open spec fn input_item_to_chat(item: Json) -> Result<Option<Json>, Seq<char>> {
    let t = item.str_at("type"@);
    if t is None || t == Some("message"@) {
        Ok(
            Some(
                Json::Object(
                    seq![("role"@, jstr(str_or(item.str_at("role"@), "user"@))), ("content"@, content_to_chat(item.get("content"@)))],
                ),
            ),
        )
    } else if t == Some("function_call"@) {
        let id_value = if item.get("call_id"@) is Some {
            item.get("call_id"@)
        } else {
            item.get("id"@)
        };
        let call_id = str_or(
            match id_value {
                Some(v) => v.str_of(),
                None => None,
            },
            "call_unknown"@,
        );
        let function = Json::Object(
            seq![("name"@, jstr(str_or(item.str_at("name"@), "unknown"@))), ("arguments"@, jstr(str_or(item.str_at("arguments"@), "{}"@)))],
        );
        let call = Json::Object(seq![("id"@, jstr(call_id)), ("type"@, jstr("function"@)), ("function"@, function)]);
        Ok(
            Some(
                Json::Object(
                    seq![("role"@, jstr("assistant"@)), ("content"@, Json::Null), ("tool_calls"@, Json::Array(seq![call]))],
                ),
            ),
        )
    } else if t == Some("function_call_output"@) {
        let output = match item.get("output"@) {
            Some(v) => value_text(v),
            None => Seq::empty(),
        };
        Ok(
            Some(
                Json::Object(
                    seq![("role"@, jstr("tool"@)), ("tool_call_id"@, jstr(str_or(item.str_at("call_id"@), "call_unknown"@))), ("content"@, jstr(output))],
                ),
            ),
        )
    } else if t == Some("reasoning"@) || t == Some("compaction"@) {
        Ok(None)
    } else {
        Err(unsupported_input_message(t->0))
    }
}

/// The tool calls of an assistant message, when it has a list of them.
pub open spec fn assistant_calls(m: Json) -> Option<Seq<Json>> {
    if m.str_at("role"@) == Some("assistant"@) {
        match m.get("tool_calls"@) {
            Some(Json::Array(calls)) => Some(calls),
            _ => None,
        }
    } else {
        None
    }
}

/// Appends a message; tool calls that follow an assistant message with tool
/// calls join that message instead, so parallel calls stay together.
pub open spec fn push_message(messages: Seq<Json>, m: Json) -> Seq<Json> {
    if messages.len() > 0 && assistant_calls(m) is Some && assistant_calls(messages.last()) is Some {
        let last = messages.last();
        let members = last->Object_0;
        let k = crate::json::key_position(members, "tool_calls"@);
        messages.update(
            messages.len() - 1,
            Json::Object(
                members.update(
                    k,
                    ("tool_calls"@, Json::Array(assistant_calls(last)->0 + assistant_calls(m)->0)),
                ),
            ),
        )
    } else {
        messages.push(m)
    }
}

/// The messages after the first `n` input items, or the first refusal.
pub open spec fn input_messages(items: Seq<Json>, n: nat, start: Seq<Json>) -> Result<Seq<Json>, Seq<char>>
    decreases n,
{
    if n == 0 || n > items.len() {
        Ok(start)
    } else {
        match input_messages(items, (n - 1) as nat, start) {
            Err(e) => Err(e),
            Ok(ms) => match input_item_to_chat(items[n - 1]) {
                Err(e) => Err(e),
                Ok(None) => Ok(ms),
                Ok(Some(m)) => Ok(push_message(ms, m)),
            },
        }
    }
}

fn text_value(s: &str) -> (r: JsonValue)
    ensures
        r@ == jstr(s@),
{
    JsonValue::text(s)
}

fn object2(k1: &str, v1: JsonValue, k2: &str, v2: JsonValue) -> (r: JsonValue)
    ensures
        r@ == Json::Object(seq![(k1@, v1@), (k2@, v2@)]),
{
    let mut members: Vec<(String, JsonValue)> = Vec::new();
    members.push((k1.to_owned(), v1));
    members.push((k2.to_owned(), v2));
    let r = JsonValue::object(members);
    assert(members_view(members@) =~= seq![(k1@, members@[0].1@), (k2@, members@[1].1@)]);
    r
}

fn object3(k1: &str, v1: JsonValue, k2: &str, v2: JsonValue, k3: &str, v3: JsonValue) -> (r: JsonValue)
    ensures
        r@ == Json::Object(seq![(k1@, v1@), (k2@, v2@), (k3@, v3@)]),
{
    let mut members: Vec<(String, JsonValue)> = Vec::new();
    members.push((k1.to_owned(), v1));
    members.push((k2.to_owned(), v2));
    members.push((k3.to_owned(), v3));
    let r = JsonValue::object(members);
    assert(members_view(members@) =~= seq![(k1@, members@[0].1@), (k2@, members@[1].1@), (k3@, members@[2].1@)]);
    r
}

fn str_member_or<'a>(v: &'a JsonValue, key: &str, fallback: &'a str) -> (r: &'a str)
    ensures
        r@ == str_or(v@.str_at(key@), fallback@),
{
    match v.str_at(key) {
        Some(s) => s,
        None => fallback,
    }
}

fn is_some_str(t: Option<&str>, s: &str) -> (r: bool)
    ensures
        r == (opt_str_view(t) == Some(s@)),
{
    match t {
        Some(x) => crate::text::str_eq(x, s),
        None => false,
    }
}

/// A string as itself, any other value as its JSON text.
pub fn value_to_text(v: &JsonValue) -> (r: String)
    ensures
        r@ == value_text(v@),
{
    match v {
        JsonValue::String(s) => s.clone(),
        _ => v.to_text(),
    }
}

fn part_convert(part: &JsonValue) -> (r: Option<JsonValue>)
    ensures
        match r {
            Some(x) => part_to_chat(part@) == Some(x@),
            None => part_to_chat(part@) is None,
        },
{
    let t = part.str_at("type");
    if is_some_str(t, "input_text") || is_some_str(t, "output_text") || is_some_str(t, "text") {
        let text = str_member_or(part, "text", "");
        proof {
            reveal_strlit("");
            assert(""@ =~= Seq::<char>::empty());
        }
        Some(object2("type", text_value("text"), "text", text_value(text)))
    } else if is_some_str(t, "input_image") {
        match part.str_at("image_url") {
            Some(url) => {
                let inner = JsonValue::single_member("url", text_value(url));
                Some(object2("type", text_value("image_url"), "image_url", inner))
            },
            None => None,
        }
    } else {
        None
    }
}

/// Message content in Chat form.
pub fn response_content_to_chat(content: Option<&JsonValue>) -> (r: JsonValue)
    ensures
        r@ == content_to_chat(opt_view(content)),
{
    match content {
        Some(JsonValue::String(s)) => JsonValue::String(s.clone()),
        Some(JsonValue::Array(parts)) => {
            let ghost whole = content->0@;
            assert(whole->Array_0 =~= items_view(parts@));
            let mut converted: Vec<JsonValue> = Vec::new();
            let mut k: usize = 0;
            while k < parts.len()
                invariant
                    k <= parts@.len(),
                    whole == Json::Array(items_view(parts@)),
                    items_view(converted@) == parts_to_chat(items_view(parts@), k as nat),
                decreases parts@.len() - k,
            {
                let ghost before = converted@;
                match part_convert(&parts[k]) {
                    Some(p) => {
                        converted.push(p);
                        assert(items_view(converted@) =~= items_view(before).push(converted@[before.len() as int]@));
                    },
                    None => {},
                }
                proof {
                    assert(items_view(parts@)[k as int] == parts@[k as int]@);
                }
                k = k + 1;
            }
            proof {
                assert(whole->Array_0 == items_view(parts@));
            }
            if converted.len() == 1 && is_some_str(converted[0].str_at("type"), "text") {
                let first = converted[0].get("text");
                assert(items_view(converted@)[0] == converted@[0]@);
                match first {
                    Some(t) => t.duplicate(),
                    None => JsonValue::Null,
                }
            } else {
                JsonValue::array(converted)
            }
        },
        Some(other) => JsonValue::String(value_to_text(other)),
        None => JsonValue::Null,
    }
}


/// A Responses input item as a Chat message, `None` for items that are
/// dropped, or the refusal of an unsupported type.
pub fn response_input_to_chat_message(item: &JsonValue) -> (r: Result<Option<JsonValue>, String>)
    ensures
        match r {
            Ok(Some(m)) => input_item_to_chat(item@) == Ok::<Option<Json>, Seq<char>>(Some(m@)),
            Ok(None) => input_item_to_chat(item@) == Ok::<Option<Json>, Seq<char>>(None),
            Err(e) => input_item_to_chat(item@) == Err::<Option<Json>, Seq<char>>(e@),
        },
{
    let t = item.str_at("type");
    if t.is_none() || is_some_str(t, "message") {
        let role = str_member_or(item, "role", "user");
        let content = response_content_to_chat(item.get("content"));
        Ok(Some(object2("role", text_value(role), "content", content)))
    } else if is_some_str(t, "function_call") {
        let id_value = match item.get("call_id") {
            Some(v) => Some(v),
            None => item.get("id"),
        };
        let call_id = match id_value {
            Some(v) => match v.as_str() {
                Some(s) => s,
                None => "call_unknown",
            },
            None => "call_unknown",
        };
        let name = str_member_or(item, "name", "unknown");
        let arguments = str_member_or(item, "arguments", "{}");
        let function = object2("name", text_value(name), "arguments", text_value(arguments));
        let call = object3("id", text_value(call_id), "type", text_value("function"), "function", function);
        let mut calls: Vec<JsonValue> = Vec::new();
        calls.push(call);
        let ghost call_model = calls@[0]@;
        let calls_value = JsonValue::array(calls);
        assert(items_view(calls@) =~= seq![call_model]);
        Ok(Some(object3("role", text_value("assistant"), "content", JsonValue::Null, "tool_calls", calls_value)))
    } else if is_some_str(t, "function_call_output") {
        let output = match item.get("output") {
            Some(v) => value_to_text(v),
            None => String::new(),
        };
        let call_id = str_member_or(item, "call_id", "call_unknown");
        Ok(Some(object3("role", text_value("tool"), "tool_call_id", text_value(call_id), "content", JsonValue::String(output))))
    } else if is_some_str(t, "reasoning") || is_some_str(t, "compaction") {
        Ok(None)
    } else {
        let kind = match t {
            Some(k) => k,
            None => "",
        };
        let head = crate::text::concat("Chat 兼容桥暂不支持 Responses input 类型 ", kind);
        Err(crate::text::concat(head.as_str(), "。"))
    }
}

/// Index of the first member named `key`, if any.
fn member_index(members: &Vec<(String, JsonValue)>, key: &str) -> (r: Option<usize>)
    ensures
        match r {
            Some(k) => k < members@.len() && k == crate::json::key_position(members_view(members@), key@),
            None => crate::json::key_position(members_view(members@), key@) == members@.len(),
        },
{
    proof {
        crate::json::lemma_key_position(members_view(members@), key@);
    }
    let mut k: usize = 0;
    while k < members.len()
        invariant
            k <= members@.len(),
            forall|q: int| 0 <= q < k ==> members_view(members@)[q].0 != key@,
            0 <= crate::json::key_position(members_view(members@), key@) <= members@.len(),
            forall|q: int| 0 <= q < crate::json::key_position(members_view(members@), key@) ==> members_view(members@)[q].0 != key@,
            crate::json::key_position(members_view(members@), key@) < members@.len() ==> members_view(members@)[crate::json::key_position(members_view(members@), key@)].0 == key@,
        decreases members@.len() - k,
    {
        if crate::text::str_eq(members[k].0.as_str(), key) {
            assert(members_view(members@)[k as int].0 == key@);
            return Some(k);
        }
        k = k + 1;
    }
    None
}

fn is_assistant_with_calls(m: &JsonValue) -> (r: bool)
    ensures
        r == (assistant_calls(m@) is Some),
{
    if !is_some_str(m.str_at("role"), "assistant") {
        return false;
    }
    match m.get("tool_calls") {
        Some(JsonValue::Array(_)) => true,
        _ => false,
    }
}

/// Appends a message, joining consecutive assistant tool calls.
pub fn push_chat_message(messages: &mut Vec<JsonValue>, message: JsonValue)
    ensures
        items_view(final(messages)@) == push_message(items_view(old(messages)@), message@),
{
    let ghost before = items_view(messages@);
    let ghost m = message@;
    let n = messages.len();
    if n > 0 && is_assistant_with_calls(&message) && is_assistant_with_calls(&messages[n - 1]) {
        assert(before.last() == messages@[n - 1]@);
        let last = messages.pop().unwrap();
        let ghost last_model = last@;
        match last {
            JsonValue::Object(mut members) => {
                assert(last_model->Object_0 =~= members_view(members@));
                let k = match member_index(&members, "tool_calls") {
                    Some(k) => k,
                    None => {
                        assert(false);
                        0
                    },
                };
                let ghost old_members = members@;
                proof {
                    crate::json::lemma_key_position(members_view(old_members), "tool_calls"@);
                    assert(members_view(old_members)[k as int].0 == old_members[k as int].0@);
                }
                let (key, value) = members.remove(k);
                assert(key@ == "tool_calls"@);
                let mut previous = match value {
                    JsonValue::Array(items) => items,
                    _ => {
                        assert(false);
                        Vec::new()
                    },
                };
                let ghost previous_model = items_view(previous@);
                assert(previous_model =~= assistant_calls(last_model)->0);
                match message {
                    JsonValue::Object(message_members) => {
                        let ghost mm = message_members@;
                        assert(m->Object_0 =~= members_view(mm));
                        let j = match member_index(&message_members, "tool_calls") {
                            Some(j) => j,
                            None => {
                                assert(false);
                                0
                            },
                        };
                        let mut message_members = message_members;
                        let (_, calls_value) = message_members.remove(j);
                        match calls_value {
                            JsonValue::Array(mut calls) => {
                                let ghost calls_model = items_view(calls@);
                                assert(calls_model =~= assistant_calls(m)->0);
                                let ghost prev_seq = previous@;
                                previous.append(&mut calls);
                                assert(items_view(previous@) =~= previous_model + calls_model);
                                let joined = JsonValue::array(previous);
                                let ghost joined_model = joined@;
                                members.insert(k, (key, joined));
                                assert(members@ =~= old_members.update(k as int, members@[k as int]));
                                assert(members_view(members@) =~= last_model->Object_0.update(
                                    k as int,
                                    ("tool_calls"@, joined_model),
                                ));
                                messages.push(JsonValue::object(members));
                                assert(items_view(messages@) =~= push_message(before, m));
                            },
                            _ => {
                                assert(false);
                            },
                        }
                    },
                    _ => {
                        assert(false);
                    },
                }
            },
            _ => {
                assert(false);
            },
        }
    } else {
        messages.push(message);
        assert(items_view(messages@) =~= push_message(before, m));
    }
}


/// The members of `tool` under the first `n` of `keys`, in that order.
pub open spec fn picked_members(tool: Json, keys: Seq<Seq<char>>, n: nat) -> Seq<(Seq<char>, Json)>
    decreases n,
{
    if n == 0 || n > keys.len() {
        Seq::empty()
    } else {
        let rest = picked_members(tool, keys, (n - 1) as nat);
        match tool.get(keys[n - 1]) {
            Some(v) => rest.push((keys[n - 1], v)),
            None => rest,
        }
    }
}

pub open spec fn function_keys() -> Seq<Seq<char>> {
    seq!["name"@, "description"@, "parameters"@, "strict"@]
}

/// A function tool in Chat form; tools of any other type have none.
pub open spec fn tool_to_chat(tool: Json) -> Option<Json> {
    if tool.str_at("type"@) == Some("function"@) {
        Some(
            Json::Object(
                seq![("type"@, jstr("function"@)), ("function"@, Json::Object(picked_members(tool, function_keys(), 4)))],
            ),
        )
    } else {
        None
    }
}

/// The converted tools among the first `n`.
pub open spec fn tools_to_chat(tools: Seq<Json>, n: nat) -> Seq<Json>
    decreases n,
{
    if n == 0 || n > tools.len() {
        Seq::empty()
    } else {
        match tool_to_chat(tools[n - 1]) {
            Some(t) => tools_to_chat(tools, (n - 1) as nat).push(t),
            None => tools_to_chat(tools, (n - 1) as nat),
        }
    }
}

/// A tool choice in Chat form: a string stays; a function choice with a
/// name names that function; anything else stays as it is.
pub open spec fn tool_choice_to_chat(c: Json) -> Json {
    match c {
        Json::Str(s) => Json::Str(s),
        _ => if c.str_at("type"@) == Some("function"@) && c.get("name"@) is Some {
            Json::Object(
                seq![("type"@, jstr("function"@)), ("function"@, Json::Object(seq![("name"@, c.get("name"@)->0)]))],
            )
        } else {
            c
        },
    }
}

pub open spec fn missing_model_message() -> Seq<char> {
    "Responses 请求缺少 model。"@
}

pub open spec fn input_kind_message() -> Seq<char> {
    "Responses input 必须是字符串或数组。"@
}

pub open spec fn too_many_tools_message(n: nat) -> Seq<char> {
    "当前任务提供了 "@ + crate::text::decimal(n)
        + " 个函数工具，超过 Chat 兼容桥的 128 个上限。请在 Codex 中停用不需要的 MCP、插件或 Skill 后重试。"@
}

/// Sampling settings carried over under their Chat names, when set and not
/// `null`.
pub open spec fn carried(request: Json, members: Seq<(Seq<char>, Json)>) -> Seq<(Seq<char>, Json)> {
    let carry = |m: Seq<(Seq<char>, Json)>, source: Seq<char>, target: Seq<char>|
        match request.get(source) {
            Some(v) => if v is Null {
                m
            } else {
                m.push((target, v))
            },
            None => m,
        };
    carry(carry(carry(members, "max_output_tokens"@, "max_tokens"@), "temperature"@, "temperature"@), "top_p"@, "top_p"@)
}

/// The messages a request starts with: its instructions as a system message.
pub open spec fn instruction_messages(request: Json) -> Seq<Json> {
    match request.str_at("instructions"@) {
        Some(i) => if i.len() > 0 {
            seq![Json::Object(seq![("role"@, jstr("system"@)), ("content"@, jstr(i))])]
        } else {
            Seq::empty()
        },
        None => Seq::empty(),
    }
}

/// The Chat messages of a request, or the refusal of its input.
pub open spec fn request_messages(request: Json) -> Result<Seq<Json>, Seq<char>> {
    let start = instruction_messages(request);
    match request.get("input"@) {
        Some(Json::Str(c)) => Ok(start.push(Json::Object(seq![("role"@, jstr("user"@)), ("content"@, jstr(c))]))),
        Some(Json::Array(items)) => input_messages(items, items.len(), start),
        Some(_) => Err(input_kind_message()),
        None => Ok(start),
    }
}

/// The Chat request for a Responses request: the model (required, not
/// blank), the messages, streaming with usage, the function tools (at most
/// 128) with their choice and parallelism, and the sampling settings.
pub open spec fn chat_request(request: Json) -> Result<Json, Seq<char>> {
    let model = request.str_at("model"@);
    if model is None || crate::text::trim_spec(model->0).len() == 0 {
        Err(missing_model_message())
    } else {
        match request_messages(request) {
            Err(e) => Err(e),
            Ok(messages) => {
                let tools = match request.get("tools"@) {
                    Some(Json::Array(ts)) => tools_to_chat(ts, ts.len()),
                    _ => Seq::empty(),
                };
                if tools.len() > 128 {
                    Err(too_many_tools_message(tools.len()))
                } else {
                    let base = seq![
                        ("model"@, jstr(model->0)),
                        ("messages"@, Json::Array(messages)),
                        ("stream"@, Json::Bool(true)),
                        ("stream_options"@, Json::Object(seq![("include_usage"@, Json::Bool(true))])),
                    ];
                    let with_tools = if tools.len() > 0 {
                        let a = base.push(("tools"@, Json::Array(tools)));
                        let b = match request.get("tool_choice"@) {
                            Some(c) => a.push(("tool_choice"@, tool_choice_to_chat(c))),
                            None => a,
                        };
                        match request.get("parallel_tool_calls"@) {
                            Some(p) => b.push(("parallel_tool_calls"@, p)),
                            None => b,
                        }
                    } else {
                        base
                    };
                    Ok(Json::Object(carried(request, with_tools)))
                }
            },
        }
    }
}

fn response_tool_to_chat(tool: &JsonValue) -> (r: Option<JsonValue>)
    ensures
        match r {
            Some(t) => tool_to_chat(tool@) == Some(t@),
            None => tool_to_chat(tool@) is None,
        },
{
    if !is_some_str(tool.str_at("type"), "function") {
        return None;
    }
    let keys: [&str; 4] = ["name", "description", "parameters", "strict"];
    let ghost key_models = function_keys();
    assert(keys@.map_values(|k: &str| k@) =~= key_models);
    let mut function: Vec<(String, JsonValue)> = Vec::new();
    let mut k: usize = 0;
    while k < 4
        invariant
            k <= 4,
            keys@.map_values(|q: &str| q@) == key_models,
            members_view(function@) == picked_members(tool@, key_models, k as nat),
        decreases 4 - k,
    {
        assert(keys@[k as int]@ == key_models[k as int]);
        let ghost before = function@;
        match tool.get(keys[k]) {
            Some(v) => {
                function.push((keys[k].to_owned(), v.duplicate()));
                assert(members_view(function@) =~= members_view(before).push((key_models[k as int], v@)));
            },
            None => {},
        }
        k = k + 1;
    }
    Some(object2("type", text_value("function"), "function", JsonValue::object(function)))
}

fn response_tool_choice_to_chat(choice: &JsonValue) -> (r: JsonValue)
    ensures
        r@ == tool_choice_to_chat(choice@),
{
    if let JsonValue::String(s) = choice {
        return JsonValue::String(s.clone());
    }
    if is_some_str(choice.str_at("type"), "function") {
        if let Some(name) = choice.get("name") {
            let inner = JsonValue::single_member("name", name.duplicate());
            return object2("type", text_value("function"), "function", inner);
        }
    }
    choice.duplicate()
}

fn push_member(members: &mut Vec<(String, JsonValue)>, key: &str, value: JsonValue)
    ensures
        members_view(final(members)@) == members_view(old(members)@).push((key@, value@)),
{
    let ghost v = value@;
    members.push((key.to_owned(), value));
    assert(members_view(members@) =~= members_view(old(members)@).push((key@, v)));
}

fn carry_setting(members: &mut Vec<(String, JsonValue)>, request: &JsonValue, source: &str, target: &str)
    ensures
        members_view(final(members)@) == match request@.get(source@) {
            Some(v) => if v is Null {
                members_view(old(members)@)
            } else {
                members_view(old(members)@).push((target@, v))
            },
            None => members_view(old(members)@),
        },
{
    match request.get(source) {
        Some(v) => if !v.is_null() {
            push_member(members, target, v.duplicate());
        },
        None => {},
    }
}

/// The Chat request for a Responses request, or why it cannot be sent.
pub fn responses_to_chat(request: &JsonValue) -> (r: Result<JsonValue, String>)
    ensures
        match r {
            Ok(v) => chat_request(request@) == Ok::<Json, Seq<char>>(v@),
            Err(e) => chat_request(request@) == Err::<Json, Seq<char>>(e@),
        },
{
    let model = match request.str_at("model") {
        Some(m) => if crate::text::str_trim(m).is_empty() {
            return Err(crate::text::owned("Responses 请求缺少 model。"));
        } else {
            m
        },
        None => {
            return Err(crate::text::owned("Responses 请求缺少 model。"));
        },
    };
    let mut messages: Vec<JsonValue> = Vec::new();
    match request.str_at("instructions") {
        Some(i) => if !i.is_empty() {
            messages.push(object2("role", text_value("system"), "content", text_value(i)));
        },
        None => {},
    }
    assert(items_view(messages@) =~= instruction_messages(request@));
    match request.get("input") {
        Some(JsonValue::String(c)) => {
            let ghost before = items_view(messages@);
            messages.push(object2("role", text_value("user"), "content", text_value(c.as_str())));
            assert(items_view(messages@) =~= before.push(messages@[before.len() as int]@));
        },
        Some(JsonValue::Array(items)) => {
            let ghost whole = request@.get("input"@)->0;
            assert(whole->Array_0 =~= items_view(items@));
            let ghost start = items_view(messages@);
            let mut k: usize = 0;
            while k < items.len()
                invariant
                    k <= items@.len(),
                    whole == Json::Array(items_view(items@)),
                    request@.get("input"@) == Some(whole),
                    start == instruction_messages(request@),
                    request@.str_at("model"@) == Some(model@),
                    crate::text::trim_spec(model@).len() != 0,
                    input_messages(items_view(items@), k as nat, start) == Ok::<Seq<Json>, Seq<char>>(items_view(messages@)),
                decreases items@.len() - k,
            {
                assert(items_view(items@)[k as int] == items@[k as int]@);
                match response_input_to_chat_message(&items[k]) {
                    Ok(Some(m)) => push_chat_message(&mut messages, m),
                    Ok(None) => {},
                    Err(e) => {
                        proof {
                            lemma_input_error_sticks(items_view(items@), (k + 1) as nat, items@.len() as nat, start);
                        }
                        return Err(e);
                    },
                }
                k = k + 1;
            }
        },
        Some(_) => {
            return Err(crate::text::owned("Responses input 必须是字符串或数组。"));
        },
        None => {},
    }
    let ghost msgs = items_view(messages@);
    assert(request_messages(request@) == Ok::<Seq<Json>, Seq<char>>(msgs));
    let mut tools: Vec<JsonValue> = Vec::new();
    match request.get("tools") {
        Some(JsonValue::Array(list)) => {
            let ghost whole = request@.get("tools"@)->0;
            assert(whole->Array_0 =~= items_view(list@));
            let mut k: usize = 0;
            while k < list.len()
                invariant
                    k <= list@.len(),
                    whole == Json::Array(items_view(list@)),
                    items_view(tools@) == tools_to_chat(items_view(list@), k as nat),
                decreases list@.len() - k,
            {
                assert(items_view(list@)[k as int] == list@[k as int]@);
                let ghost before = items_view(tools@);
                match response_tool_to_chat(&list[k]) {
                    Some(t) => {
                        tools.push(t);
                        assert(items_view(tools@) =~= before.push(tools@[before.len() as int]@));
                    },
                    None => {},
                }
                k = k + 1;
            }
        },
        _ => {},
    }
    let ghost tool_models = items_view(tools@);
    assert(tool_models == match request@.get("tools"@) {
        Some(Json::Array(ts)) => tools_to_chat(ts, ts.len()),
        _ => Seq::empty(),
    });
    if tools.len() > 128 {
        let count = crate::text::decimal_string(tools.len() as u128);
        let head = crate::text::concat("当前任务提供了 ", count.as_str());
        return Err(crate::text::concat(
            head.as_str(),
            " 个函数工具，超过 Chat 兼容桥的 128 个上限。请在 Codex 中停用不需要的 MCP、插件或 Skill 后重试。",
        ));
    }
    let mut output: Vec<(String, JsonValue)> = Vec::new();
    push_member(&mut output, "model", text_value(model));
    push_member(&mut output, "messages", JsonValue::array(messages));
    push_member(&mut output, "stream", JsonValue::Bool(true));
    push_member(&mut output, "stream_options", JsonValue::single_member("include_usage", JsonValue::Bool(true)));
    let ghost base = seq![
        ("model"@, jstr(model@)),
        ("messages"@, Json::Array(msgs)),
        ("stream"@, Json::Bool(true)),
        ("stream_options"@, Json::Object(seq![("include_usage"@, Json::Bool(true))])),
    ];
    assert(members_view(output@) =~= base);
    if tools.len() > 0 {
        push_member(&mut output, "tools", JsonValue::array(tools));
        match request.get("tool_choice") {
            Some(c) => push_member(&mut output, "tool_choice", response_tool_choice_to_chat(c)),
            None => {},
        }
        match request.get("parallel_tool_calls") {
            Some(p) => push_member(&mut output, "parallel_tool_calls", p.duplicate()),
            None => {},
        }
    }
    let ghost with_tools = members_view(output@);
    assert(with_tools == if tool_models.len() > 0 {
        let a = base.push(("tools"@, Json::Array(tool_models)));
        let b = match request@.get("tool_choice"@) {
            Some(c) => a.push(("tool_choice"@, tool_choice_to_chat(c))),
            None => a,
        };
        match request@.get("parallel_tool_calls"@) {
            Some(p) => b.push(("parallel_tool_calls"@, p)),
            None => b,
        }
    } else {
        base
    });
    carry_setting(&mut output, request, "max_output_tokens", "max_tokens");
    carry_setting(&mut output, request, "temperature", "temperature");
    carry_setting(&mut output, request, "top_p", "top_p");
    assert(members_view(output@) == carried(request@, with_tools));
    Ok(JsonValue::object(output))
}

proof fn lemma_input_error_sticks(items: Seq<Json>, k: nat, n: nat, start: Seq<Json>)
    requires
        k <= n <= items.len(),
        input_messages(items, k, start) is Err,
    ensures
        input_messages(items, n, start) == input_messages(items, k, start),
    decreases n,
{
    if n > k {
        lemma_input_error_sticks(items, k, (n - 1) as nat, start);
    }
}


/// Tool calls that directly follow an assistant message with tool calls
/// join that message: no message is added, and its calls are the earlier
/// ones followed by the new ones.
pub proof fn law_parallel_calls_join(messages: Seq<Json>, m: Json)
    requires
        messages.len() > 0,
        assistant_calls(messages.last()) is Some,
        assistant_calls(m) is Some,
    ensures
        push_message(messages, m).len() == messages.len(),
        assistant_calls(push_message(messages, m).last()) == Some(
            assistant_calls(messages.last())->0 + assistant_calls(m)->0,
        ),
        forall|i: int| 0 <= i < messages.len() - 1 ==> push_message(messages, m)[i] == messages[i],
{
    let last = messages.last();
    let members = last->Object_0;
    crate::json::lemma_key_position(members, "tool_calls"@);
    crate::json::lemma_key_position(members, "role"@);
    let k = crate::json::key_position(members, "tool_calls"@);
    let r = crate::json::key_position(members, "role"@);
    let updated = members.update(k, ("tool_calls"@, Json::Array(assistant_calls(last)->0 + assistant_calls(m)->0)));
    assert(k != r);
    crate::json::lemma_key_position(updated, "tool_calls"@);
    crate::json::lemma_key_position(updated, "role"@);
    assert(crate::json::key_position(updated, "tool_calls"@) == k) by {
        let q = crate::json::key_position(updated, "tool_calls"@);
        assert(updated[k].0 == "tool_calls"@);
        if q < k {
            assert(updated[q] == members[q]);
        }
    }
    assert(crate::json::key_position(updated, "role"@) == r) by {
        let q = crate::json::key_position(updated, "role"@);
        if q < r {
            assert(q != k ==> updated[q] == members[q]);
        }
        if r < q {
            assert(updated[r] == members[r]);
        }
    }
}

} // verus!

verus! {

/// A tool result answers the call it names: converting a `function_call_output`
/// item whose `call_id` is `s` gives a `tool` message whose `tool_call_id` is
/// `s`, carrying the item's output.
pub proof fn law_tool_result_keeps_call_id(item: Json, s: Seq<char>)
    requires
        item.str_at("type"@) == Some("function_call_output"@),
        item.str_at("call_id"@) == Some(s),
    ensures
        input_item_to_chat(item) matches Ok(Some(m)) && m.str_at("tool_call_id"@) == Some(s) && m.str_at("role"@)
            == Some("tool"@),
{
    reveal_strlit("function_call_output");
    reveal_strlit("message");
    reveal_strlit("function_call");
    reveal_strlit("role");
    reveal_strlit("tool_call_id");
    reveal_strlit("content");
    assert("function_call_output"@.len() != "message"@.len());
    assert("function_call_output"@.len() != "function_call"@.len());
    let m = input_item_to_chat(item)->Ok_0->Some_0;
    let ms = m->Object_0;
    assert("role"@.len() != "tool_call_id"@.len());
    assert(key_position(ms.drop_first(), "tool_call_id"@) == 0);
    assert(key_position(ms, "tool_call_id"@) == 1);
    assert(key_position(ms, "role"@) == 0);
}

/// A tool result carries the call's output: a string output is the tool
/// message's content as it is.
pub proof fn law_tool_result_keeps_output(item: Json, output: Seq<char>)
    requires
        item.str_at("type"@) == Some("function_call_output"@),
        item.get("output"@) == Some(Json::Str(output)),
    ensures
        input_item_to_chat(item) matches Ok(Some(m)) && m.str_at("content"@) == Some(output),
{
    reveal_strlit("function_call_output");
    reveal_strlit("message");
    reveal_strlit("function_call");
    reveal_strlit("role");
    reveal_strlit("tool_call_id");
    reveal_strlit("content");
    assert("function_call_output"@.len() != "message"@.len());
    assert("function_call_output"@.len() != "function_call"@.len());
    let m = input_item_to_chat(item)->Ok_0->Some_0;
    let ms = m->Object_0;
    assert("role"@.len() != "content"@.len());
    assert("tool_call_id"@.len() != "content"@.len());
    let d1 = ms.drop_first();
    assert(key_position(d1.drop_first(), "content"@) == 0);
    assert(key_position(d1, "content"@) == 1);
    assert(key_position(ms, "content"@) == 2);
}

/// A message keeps its sender: a `message` item (or one without a type) whose
/// role is `r` becomes a Chat message with role `r`.
pub proof fn law_message_keeps_role(item: Json, r: Seq<char>)
    requires
        item.str_at("type"@) is None || item.str_at("type"@) == Some("message"@),
        item.str_at("role"@) == Some(r),
    ensures
        input_item_to_chat(item) matches Ok(Some(m)) && m.str_at("role"@) == Some(r),
{
    let m = input_item_to_chat(item)->Ok_0->Some_0;
    assert(key_position(m->Object_0, "role"@) == 0);
}

/// A function call keeps its identity: a `function_call` item with a string
/// `call_id` `s`, name `n` and arguments `a` becomes an assistant message with
/// one tool call whose ID is `s`, of a function named `n` with arguments `a`.
pub proof fn law_function_call_keeps_its_call(item: Json, s: Seq<char>, n: Seq<char>, a: Seq<char>)
    requires
        item.str_at("type"@) == Some("function_call"@),
        item.get("call_id"@) == Some(Json::Str(s)),
        item.str_at("name"@) == Some(n),
        item.str_at("arguments"@) == Some(a),
    ensures
        input_item_to_chat(item) matches Ok(Some(m)) && m.str_at("role"@) == Some("assistant"@) && (m.get(
            "tool_calls"@,
        ) matches Some(Json::Array(calls)) && calls.len() == 1 && calls[0].str_at("id"@) == Some(s) && calls[0].at(
            seq!["function"@, "name"@],
        ) == Some(Json::Str(n)) && calls[0].at(seq!["function"@, "arguments"@]) == Some(Json::Str(a))),
{
    reveal_strlit("function_call");
    reveal_strlit("message");
    reveal_strlit("role");
    reveal_strlit("content");
    reveal_strlit("tool_calls");
    reveal_strlit("id");
    reveal_strlit("type");
    reveal_strlit("function");
    reveal_strlit("name");
    reveal_strlit("arguments");
    assert("function_call"@.len() != "message"@.len());
    let m = input_item_to_chat(item)->Ok_0->Some_0;
    let ms = m->Object_0;
    assert("role"@.len() != "tool_calls"@.len());
    assert("content"@.len() != "tool_calls"@.len());
    let d1 = ms.drop_first();
    assert(key_position(d1.drop_first(), "tool_calls"@) == 0);
    assert(key_position(d1, "tool_calls"@) == 1);
    assert(key_position(ms, "tool_calls"@) == 2);
    assert(key_position(ms, "role"@) == 0);
    let calls = m.get("tool_calls"@)->Some_0->Array_0;
    let call = calls[0];
    let cs = call->Object_0;
    assert("id"@.len() != "function"@.len());
    assert("type"@.len() != "function"@.len());
    assert(key_position(cs, "id"@) == 0);
    assert(key_position(cs.drop_first().drop_first(), "function"@) == 0);
    assert(key_position(cs.drop_first(), "function"@) == 1);
    assert(key_position(cs, "function"@) == 2);
    let f = call.get("function"@)->Some_0;
    let fs = f->Object_0;
    assert("name"@.len() != "arguments"@.len());
    assert(key_position(fs, "name"@) == 0);
    assert(key_position(fs.drop_first(), "arguments"@) == 0);
    assert(key_position(fs, "arguments"@) == 1);
    let pn = seq!["function"@, "name"@];
    assert(pn.drop_first() =~= seq!["name"@]);
    assert(pn.drop_first().drop_first() =~= Seq::<Seq<char>>::empty());
    assert(f.at(seq!["name"@]) == Json::Str(n).at(seq!["name"@].drop_first()));
    assert(call.at(pn) == f.at(pn.drop_first()));
    let pa = seq!["function"@, "arguments"@];
    assert(pa.drop_first() =~= seq!["arguments"@]);
    assert(pa.drop_first().drop_first() =~= Seq::<Seq<char>>::empty());
    assert(f.at(seq!["arguments"@]) == Json::Str(a).at(seq!["arguments"@].drop_first()));
    assert(call.at(pa) == f.at(pa.drop_first()));
}

} // verus!
